use protox::helpers::{array_join, indent, IfEquals, Indent};

#[test]
fn test_indent() {
    let content = r#"
0
    1
        2
    3
4
"#;

    assert_eq!(
        indent(content, 2),
        r#"
  0
      1
          2
      3
  4
"#
    );

    assert_eq!(
        indent(content, 4),
        r#"
    0
        1
            2
        3
    4
"#
    );
}

#[test]
fn blank_lines_stay_blank() {
    assert_eq!(indent("a\n  \nb", 1), " a\n  \n b");
    assert_eq!(Indent.apply("x", None), "x");
    assert_eq!(Indent.apply("x\ny", Some(3)), "   x\n   y");
}

#[test]
fn if_equals_picks_branch() {
    assert_eq!(IfEquals.pick(true, Some(1), Some(2)), Some(1));
    assert_eq!(IfEquals.pick(false, Some(1), Some(2)), Some(2));
    assert_eq!(IfEquals.pick::<i32>(false, Some(1), None), None);
}

#[test]
fn joins_items() {
    let items = vec!["a".to_string(), "b".to_string(), "c".to_string()];
    assert_eq!(array_join(&items, ", "), "a, b, c");
    assert_eq!(array_join(&Vec::new(), ", "), "");
}
