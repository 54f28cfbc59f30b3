use cargo_bin::bin_info::{get_bin_info, get_bin_path};
use cargo_bin::error::BinError;

#[test]
fn name_under_default_dir() {
    let info = get_bin_info("/p/src/a/b.rs", "/p").unwrap();
    assert_eq!(info.name, "a-b");
    assert_eq!(info.path, "src/a/b.rs");
}

#[test]
fn name_directly_under_root() {
    let info = get_bin_info("/p/tool.rs", "/p").unwrap();
    assert_eq!(info.name, "tool");
    assert_eq!(info.path, "tool.rs");
}

#[test]
fn name_outside_default_dir_keeps_segments() {
    let info = get_bin_info("/p/examples/x/y.rs", "/p").unwrap();
    assert_eq!(info.name, "examples-x-y");
    assert_eq!(info.path, "examples/x/y.rs");
}

#[test]
fn default_dir_must_be_a_whole_segment() {
    let info = get_bin_info("/p/srcx/a.rs", "/p").unwrap();
    assert_eq!(info.name, "srcx-a");
    assert_eq!(info.path, "srcx/a.rs");
}

#[test]
fn extension_stripped_once_and_only_at_end() {
    let info = get_bin_info("/p/src/a.rs.rs", "/p").unwrap();
    assert_eq!(info.name, "a.rs");
    let info = get_bin_info("/p/src/a.txt", "/p").unwrap();
    assert_eq!(info.name, "a.txt");
}

#[test]
fn root_with_trailing_separator() {
    let info = get_bin_info("/src/main.rs", "/").unwrap();
    assert_eq!(info.name, "main");
    assert_eq!(info.path, "src/main.rs");
}

#[test]
fn file_outside_root_is_refused() {
    assert_eq!(get_bin_info("/q/src/a.rs", "/p"), Err(BinError::OutOfTree));
    assert_eq!(get_bin_info("/pother/a.rs", "/p"), Err(BinError::OutOfTree));
    assert_eq!(get_bin_info("/p", "/p"), Err(BinError::OutOfTree));
    assert_eq!(get_bin_info("/p/", "/p"), Err(BinError::OutOfTree));
}

#[test]
fn bin_path_gets_extension() {
    assert_eq!(get_bin_path("foo".to_string()), Ok("foo.rs".to_string()));
    assert_eq!(get_bin_path("src/foo.rs".to_string()), Ok("src/foo.rs".to_string()));
    assert_eq!(get_bin_path("a.r".to_string()), Ok("a.r.rs".to_string()));
}

#[test]
fn bin_path_empty_is_refused() {
    assert_eq!(get_bin_path(String::new()), Err(BinError::EmptyPath));
}
