use protox::error::Error;
use protox::util::{
    file_name_or_error, normalize_slashes, path_as_absolute, path_parent_or_error, replace_proto_ext, str_or_error,
    str_or_unknown, unquote_arg, DisplayNormalized,
};

#[test]
fn normalized_path_display() {
    let path = "/test\\path\\display/slashes";
    assert_eq!(path.display_normalized(), "/test/path/display/slashes".to_string());
}

#[test]
fn relative_without_root() {
    let path = "relative/path";
    assert!(path_as_absolute(path, None).is_err());
}

#[test]
fn util_relative_with_root() -> Result<(), Error> {
    assert_eq!(path_as_absolute("relative/path", Some("/cur"))?, "/cur/relative/path");
    Ok(())
}

#[test]
fn absolute_without_root() -> Result<(), Error> {
    assert_eq!(path_as_absolute("/tmp/x", None)?, "/tmp/x");
    Ok(())
}

#[test]
fn util_absolute_with_root() -> Result<(), Error> {
    assert_eq!(path_as_absolute("/tmp/x", Some("/cur"))?, "/tmp/x");
    Ok(())
}

#[test]
fn replaces_proto_extension() {
    assert_eq!(replace_proto_ext("dir/file.proto", "rs"), "dir/file.rs");
    assert_eq!(replace_proto_ext("dir/file.proto", ".rs"), "dir/file.rs");
    assert_eq!(replace_proto_ext("dir/file.proto", ""), "dir/file.");
}

#[test]
fn parents_and_names() -> Result<(), Error> {
    assert_eq!(path_parent_or_error("a/b/c")?, "a/b");
    assert_eq!(path_parent_or_error("c")?, "");
    assert_eq!(path_parent_or_error(""), Err(Error::NoParent(String::new())));
    assert_eq!(file_name_or_error("a/b/c.txt")?, "c.txt");
    assert_eq!(file_name_or_error("a/.."), Err(Error::NoFileName("a/..".to_string())));
    Ok(())
}

#[test]
fn text_or_error() {
    let some = Some("x".to_string());
    assert_eq!(str_or_error(&some, "missing"), Ok("x"));
    assert_eq!(str_or_error(&None, "missing"), Err(Error::Missing("missing".to_string())));
    assert_eq!(str_or_unknown(&None), "(unknown)");
    assert_eq!(unquote_arg("\"abc\""), "abc");
    assert_eq!(normalize_slashes("a\\b"), "a/b");
}
