use protox::case::Case;
use protox::type_path::{extract_package_from_type, TypePath};

#[test]
fn depth_from_type() {
    assert_eq!(TypePath::from_type("TypeName").depth(), 0);
    assert_eq!(TypePath::from_type("root.TypeName").depth(), 1);
    assert_eq!(TypePath::from_type("root.sub.TypeName").depth(), 2);
    assert_eq!(TypePath::from_type("root.sub.inner.TypeName").depth(), 3);
}

#[test]
fn depth_from_package() {
    assert_eq!(TypePath::from_package("TypeName").depth(), 1);
    assert_eq!(TypePath::from_package("root.TypeName").depth(), 2);
    assert_eq!(TypePath::from_package("root.sub.TypeName").depth(), 3);
    assert_eq!(TypePath::from_package("root.sub.inner.TypeName").depth(), 4);
}

fn assert_type_ab_ba(a: &str, b: &str, value: i32) {
    let a = TypePath::from_type(a);
    let b = TypePath::from_type(b);
    assert_eq!(TypePath::matching_depth(&a, &b), value, "type: a vs b");
    assert_eq!(TypePath::matching_depth(&b, &a), value, "type: b vs a");
}

fn assert_package_ab_ba(a: &str, b: &str, value: i32) {
    let a = TypePath::from_package(a);
    let b = TypePath::from_package(b);
    assert_eq!(TypePath::matching_depth(&a, &b), value, "package: a vs b");
    assert_eq!(TypePath::matching_depth(&b, &a), value, "package: b vs a");
}

#[test]
fn one_top_level() {
    let a = "root.sub.inner.TypeName";
    let b = "TypeName";
    assert_type_ab_ba(&a, &b, 0);
    assert_package_ab_ba(&a, &b, 0);
}

#[test]
fn both_top_level() {
    let a = "TypeName";
    let b = "TypeName";
    assert_type_ab_ba(&a, &b, 0);
    assert_package_ab_ba(&a, &b, 1);
}

#[test]
fn one_match() {
    let a = "root.sub.inner.TypeName";
    let b = "root.TypeName";
    assert_type_ab_ba(&a, &b, 1);
    assert_package_ab_ba(&a, &b, 1);
}

#[test]
fn multiple_matches() {
    let a = "root.sub.inner.TypeName";
    let b = "root.sub.TypeName";
    assert_type_ab_ba(&a, &b, 2);
    assert_package_ab_ba(&a, &b, 2);
}

#[test]
fn separate_tree() {
    let a = "root.sub.inner.TypeName";
    let b = "sub.TypeName";
    assert_type_ab_ba(&a, &b, 0);
    assert_package_ab_ba(&a, &b, 0);
}

#[test]
fn equivalent() {
    let a = "root.sub.inner.TypeName";
    let b = "root.sub.inner.TypeName";
    assert_type_ab_ba(&a, &b, 3);
    assert_package_ab_ba(&a, &b, 4);
}

#[test]
fn combines_package_and_type() {
    let path = TypePath::from_type("root.sub.TypeName");
    assert_eq!(path.to_string(), "root.sub.TypeName");
}

#[test]
fn normalizes_incoming_package() {
    let path = TypePath::from_type(".root.sub.TypeName");
    assert_eq!(path.to_string(), "root.sub.TypeName");
}

#[test]
fn uses_custom_separator() {
    let mut path = TypePath::from_type("root.sub.TypeName");
    path.set_separator("::");
    assert_eq!(path.to_string(), "root::sub::TypeName");
}

#[test]
fn package_only() {
    let path = TypePath::from_package("root.sub");
    assert_eq!(path.to_string(), "root.sub");
}

#[test]
fn type_only() {
    let path = TypePath::from_type("TypeName");
    assert_eq!(path.to_string(), "TypeName");
}

#[test]
fn with_name_case() {
    let mut path = TypePath::from_type("root.sub.TypeName");
    path.set_name_case(Some(Case::UpperSnake));
    assert_eq!(path.to_string(), "root.sub.TYPE_NAME");
}

#[test]
fn with_package_case() {
    let mut path = TypePath::from_type("rootPkg.subPkg.TypeName");
    path.set_package_case(Some(Case::UpperSnake));
    assert_eq!(path.to_string(), "ROOT_PKG.SUB_PKG.TypeName");
}

#[test]
fn no_package_uses_fully_qualified_type() {
    let qualified = TypePath::from_type("root.sub.TypeName");
    let result = qualified.relative_to(None, None);
    assert_eq!(result, qualified.to_string());
}

#[test]
fn different_prefix_uses_fully_qualified_type() {
    let qualified = TypePath::from_type("root.sub.TypeName");
    let result = qualified.relative_to(Some("other.sub"), None);
    assert_eq!(result, qualified.to_string());
}

#[test]
fn matching_longer_prefix_uses_fully_qualified_type() {
    let qualified = TypePath::from_type("root.sub.TypeName");
    let result = qualified.relative_to(Some("root.sub.sub2.sub3"), None);
    assert_eq!(result, qualified.to_string());
}

#[test]
fn matching_shorter_prefix_uses_partially_qualified_type() {
    let qualified = TypePath::from_type("root.sub.TypeName");
    let result = qualified.relative_to(Some("root"), None);
    assert_eq!(result, "sub.TypeName");
}

#[test]
fn matching_prefix_uses_non_qualified_type() {
    let qualified = TypePath::from_type("root.sub.TypeName");
    let result = qualified.relative_to(Some("root.sub"), None);
    assert_eq!(result, "TypeName");
}

#[test]
fn fully_qualified_with_case() {
    let mut qualified = TypePath::from_type("root.sub.TypeName");
    qualified.set_name_case(Some(Case::UpperSnake));
    let result = qualified.relative_to(None, None);
    assert_eq!(result, "root.sub.TYPE_NAME");
}

#[test]
fn relative_with_case() {
    let mut qualified = TypePath::from_type("root.sub.TypeName");
    qualified.set_name_case(Some(Case::UpperSnake));
    let result = qualified.relative_to(Some("root"), None);
    assert_eq!(result, "sub.TYPE_NAME");
}

fn run_parent_prefix_test(qualified: &str, package: &str, expected: &str) {
    let qualified = TypePath::from_type(qualified);
    let relative_type = qualified.relative_to(Some(package), Some("super"));
    assert_eq!(relative_type, expected);
}

#[test]
fn sibling() {
    run_parent_prefix_test("grand.parent.me.Sibling", "grand.parent.me", "Sibling");
}

#[test]
fn child() {
    run_parent_prefix_test("grand.parent.me.child.Name", "grand.parent.me", "child.Name");
}

#[test]
fn parent() {
    run_parent_prefix_test("grand.parent.Name", "grand.parent.me", "super.Name");
}

#[test]
fn grandparent() {
    run_parent_prefix_test("grand.Name", "grand.parent.me", "super.super.Name");
}

#[test]
fn cousin() {
    run_parent_prefix_test("grand.parent.cousin.Name", "grand.parent.me", "super.cousin.Name");
}

#[test]
fn separate_family() {
    run_parent_prefix_test("other.sub.Name", "grand.parent.me", "super.super.super.other.sub.Name");
}

#[test]
fn proto_top_level() {
    run_parent_prefix_test("Name", "grand.parent.me", "Name");
}

#[test]
fn single_component_is_type_name() {
    let (package, name) = extract_package_from_type("TypeName");
    assert_eq!(package, None);
    assert_eq!(name, Some("TypeName".to_owned()));
}

#[test]
fn multiple_component_splits() {
    let (package, name) = extract_package_from_type("root.sub.TypeName");
    assert_eq!(package, Some("root.sub".to_owned()));
    assert_eq!(name, Some("TypeName".to_owned()));
}

#[test]
fn matching_depth_is_longest_shared_prefix_both_ways() {
    let a = TypePath::from_package("root.sub.inner.TypeName");
    let b = TypePath::from_package("root.sub.TypeName");
    assert_eq!(TypePath::matching_depth(&a, &b), 2);
    assert_eq!(TypePath::matching_depth(&b, &a), 2);
    assert_eq!(TypePath::matching_depth(&a, &a), a.depth() as i32);
}
