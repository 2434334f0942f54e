use protox::error::Error;
use protox::metadata::{create_package_file_tree, MetadataContext, PackageTree};

#[test]
fn metadata_direct_child() -> Result<(), Error> {
    let mut context = MetadataContext::with_relative_dir("root");
    context.push_file("root/file.txt")?;
    assert_eq!(context.file_names().get(0), Some(&"file".to_owned()));
    Ok(())
}

#[test]
fn metadata_not_direct_child() -> Result<(), Error> {
    let mut context = MetadataContext::with_relative_dir("root");
    context.push_file("root/sub/file.txt")?;
    assert!(context.file_names().is_empty());
    Ok(())
}

#[test]
fn also_adds_no_ext_file_name() -> Result<(), Error> {
    let mut context = MetadataContext::with_relative_dir("root");
    context.push_file("root/file.txt")?;
    assert_eq!(context.file_names().get(0), Some(&"file".to_owned()));
    assert_eq!(context.file_names_with_ext().get(0), Some(&"file.txt".to_owned()));
    Ok(())
}

#[test]
fn subdirectory_direct_child() -> Result<(), Error> {
    let mut context = MetadataContext::with_relative_dir("root");
    context.push_subdirectory("root/sub")?;
    assert_eq!(context.subdirectories().get(0), Some(&"sub".to_owned()));
    Ok(())
}

#[test]
fn subdirectory_not_direct_child() -> Result<(), Error> {
    let mut context = MetadataContext::with_relative_dir("root");
    context.push_subdirectory("root/sub/other")?;
    assert!(context.subdirectories().is_empty());
    Ok(())
}

#[test]
fn empty_subdirectory_is_skipped() -> Result<(), Error> {
    let mut context = MetadataContext::new();
    context.push_subdirectory("")?;
    assert!(context.subdirectories().is_empty());
    Ok(())
}

#[test]
fn metadata_valid() {
    let context = MetadataContext::with_relative_dir("root");
    assert!(context.is_direct_child("root/anything"));
}

#[test]
fn invalid_too_deep() {
    let context = MetadataContext::with_relative_dir("root");
    assert!(!context.is_direct_child("root/sub/other"));
}

#[test]
fn invalid_too_high() {
    let context = MetadataContext::with_relative_dir("root/sub");
    assert!(!context.is_direct_child("root"));
}

#[test]
fn invalid_different_root() {
    let context = MetadataContext::with_relative_dir("root/sub");
    assert!(!context.is_direct_child("anything"));
}

#[test]
fn root_holds_top_level_paths() {
    let context = MetadataContext::new();
    assert!(context.is_direct_child("file.proto"));
    assert!(!context.is_direct_child("dir/file.proto"));
}

fn create_package_file_map(values: &[(&str, &str)]) -> Vec<(String, String)> {
    values.iter().map(|(p, f)| (p.to_string(), f.to_string())).collect()
}

fn assert_tree_node_file(tree: &PackageTree, package: &str, file_name: Option<&str>) {
    let mut level = tree;
    let mut node = None;
    for component in package.split('.') {
        let found = level.get(component).expect("expected tree to have component");
        level = found.children();
        node = Some(found);
    }
    assert_eq!(node.expect("a node").file_name().map(String::as_str), file_name);
}

#[test]
fn separate_top_level() {
    let package_files = create_package_file_map(&[("root", "file0"), ("other", "file1"), ("third", "file2")]);
    let tree = create_package_file_tree(&package_files);
    assert_tree_node_file(&tree, "root", Some("file0"));
    assert_tree_node_file(&tree, "other", Some("file1"));
    assert_tree_node_file(&tree, "third", Some("file2"));
}

#[test]
fn deep_file() {
    let package_files = create_package_file_map(&[("root.sub.inner.sanctum", "file")]);
    let tree = create_package_file_tree(&package_files);
    assert_tree_node_file(&tree, "root", None);
    assert_tree_node_file(&tree, "root.sub", None);
    assert_tree_node_file(&tree, "root.sub.inner", None);
    assert_tree_node_file(&tree, "root.sub.inner.sanctum", Some("file"));
}

#[test]
fn shallower_package_keeps_deeper_nodes() {
    let package_files = create_package_file_map(&[("a.b", "deep"), ("a", "top")]);
    let tree = create_package_file_tree(&package_files);
    assert_tree_node_file(&tree, "a", Some("top"));
    assert_tree_node_file(&tree, "a.b", Some("deep"));
    assert_eq!(tree.entries().len(), 1);
}

#[test]
fn append_files_records_direct_children() -> Result<(), Error> {
    let mut context = MetadataContext::with_relative_dir("test");
    let paths = vec!["file1".to_string(), "test/file2.proto".to_string(), "test/sub/file3".to_string()];
    context.append_files(&paths)?;
    assert_eq!(context.file_names(), &vec!["file2".to_string()]);
    assert_eq!(context.file_names_with_ext(), &vec!["file2.proto".to_string()]);
    let dirs = vec!["".to_string(), "test".to_string(), "test/sub".to_string()];
    context.append_subdirectories(&dirs)?;
    assert_eq!(context.subdirectories(), &vec!["sub".to_string()]);
    Ok(())
}

#[test]
fn package_files_use_forward_slashes() {
    let mut context = MetadataContext::new();
    context.append_package_files(vec![("p".to_string(), "a\\b".to_string())]);
    assert_eq!(context.package_files_full()[0].package(), "p");
    assert_eq!(context.package_files_full()[0].file_name(), "a/b");
}

#[test]
fn package_tree_does_not_depend_on_order() {
    let entries = [("a.b", "deep"), ("a", "top"), ("c", "other"), ("a.x.y", "far")];
    let forward = create_package_file_tree(&create_package_file_map(&entries));
    let mut reversed_entries = entries.to_vec();
    reversed_entries.reverse();
    let reversed = create_package_file_tree(&create_package_file_map(&reversed_entries));
    for tree in [&forward, &reversed] {
        assert_tree_node_file(tree, "a", Some("top"));
        assert_tree_node_file(tree, "a.b", Some("deep"));
        assert_tree_node_file(tree, "c", Some("other"));
        assert_tree_node_file(tree, "a.x", None);
        assert_tree_node_file(tree, "a.x.y", Some("far"));
    }
}
