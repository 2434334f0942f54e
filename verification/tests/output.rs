use protox::output::{IndentChar, Output, ScopeConfig, ScriptedConfig};

fn scope_config() -> ScriptedConfig {
    ScriptedConfig {
        scope: ScopeConfig {
            open: "{".to_string(),
            close: "}".to_string(),
            indent: 2,
            open_on_new_line: false,
        },
        ..ScriptedConfig::default()
    }
}

#[test]
fn new_is_empty_content() {
    let output = Output::default();
    assert_eq!(output.to_string(), "");
}

#[test]
fn append_adds_to_content_without_newline() {
    let mut output = Output::default();
    output.append("000");
    output.append("111");
    output.append("222");
    assert_eq!(output.to_string(), "000111222");
}

#[test]
fn line_adds_to_content_with_newline() {
    let mut output = Output::default();
    output.line("000");
    output.line("111");
    output.line("222");
    assert_eq!(output.to_string(), "000\n111\n222\n");
}

fn run_indent_char_test(indent_char: IndentChar, amount: i64, expected: &str) {
    let config = ScriptedConfig {
        indent_char,
        ..ScriptedConfig::default()
    };
    let mut output = Output::with_config(config);
    output.indent(amount);
    output.append("x");
    assert_eq!(&output.to_string(), expected);
}

#[test]
fn space() {
    run_indent_char_test(IndentChar::Space, 2, "  x");
}

#[test]
fn tab() {
    run_indent_char_test(IndentChar::Tab, 2, "\t\tx");
}

#[test]
fn applies_immediately_if_start_of_output() {
    let mut output = Output::default();
    output.indent(2);
    output.append("0");
    assert_eq!(&output.to_string(), "  0");
}

#[test]
fn applies_immediately_if_directly_after_newline() {
    let mut output = Output::default();
    output.line("0");
    output.indent(2);
    output.append("1");
    assert_eq!(&output.to_string(), "0\n  1");
}

#[test]
fn applies_after_next_newline_if_not_after_newline() {
    let mut output = Output::default();
    output.append("0");
    output.indent(2);
    output.line("1");
    output.append("2");
    assert_eq!(&output.to_string(), "01\n  2");
}

#[test]
fn applies_to_subsequent_lines() {
    let mut output = Output::default();
    output.line("0");
    output.indent(1);
    output.line("1");
    output.line("2");
    output.line("3");
    assert_eq!(&output.to_string(), "0\n 1\n 2\n 3\n");
}

#[test]
fn unindent_reduces_indent_for_subsequent_lines() {
    let mut output = Output::default();
    output.line("0");
    output.indent(2);
    output.line("1");
    output.unindent(1);
    output.line("2");
    output.line("3");
    assert_eq!(&output.to_string(), "0\n  1\n 2\n 3\n");
}

#[test]
fn indents_are_cumulative() {
    let mut output = Output::default();
    output.line("0");
    output.indent(1);
    output.line("1");
    output.indent(1);
    output.line("2");
    output.indent(2);
    output.line("3");
    assert_eq!(&output.to_string(), "0\n 1\n  2\n    3\n");
}

#[test]
fn adds_open_scope_str_with_space() {
    let mut output = Output::with_config(scope_config());
    output.append("0");
    output.push_scope();
    assert_eq!(&output.to_string(), "0 {\n");
}

#[test]
fn does_not_add_space_if_already_exists() {
    let mut output = Output::with_config(scope_config());
    output.append("0 ");
    output.push_scope();
    assert_eq!(&output.to_string(), "0 {\n");
}

#[test]
fn does_not_add_space_if_on_newline() {
    let mut output = Output::with_config(scope_config());
    output.line("0");
    output.push_scope();
    assert_eq!(&output.to_string(), "0\n{\n");
}

#[test]
fn adds_open_scope_str_on_newline_if_configured() {
    let mut config = scope_config();
    config.scope.open_on_new_line = true;
    let mut output = Output::with_config(config);
    output.append("0");
    output.push_scope();
    assert_eq!(&output.to_string(), "0\n{\n");
}

#[test]
fn adds_to_indent() {
    let mut output = Output::with_config(scope_config());
    output.append("0 ");
    output.push_scope();
    output.append("1");
    assert_eq!(&output.to_string(), "0 {\n  1");
}

#[test]
fn adds_close_scope_str() {
    let mut output = Output::with_config(scope_config());
    output.pop_scope();
    assert_eq!(&output.to_string(), "\n}\n");
}

#[test]
fn reduces_indent() {
    let mut output = Output::with_config(scope_config());
    output.append("0 ");
    output.push_scope();
    output.append("1");
    output.pop_scope();
    output.append("2");
    assert_eq!(&output.to_string(), "0 {\n  1\n}\n2");
}

#[test]
fn only_adds_newline_if_not_already_on_newline() {
    let mut output = Output::with_config(scope_config());
    output.newline();
    output.pop_scope();
    assert_eq!(&output.to_string(), "\n}\n");
}

#[test]
fn multiline_append_removes_common_indentation() {
    let mut output = Output::default();
    output.append("\n    a\n      b");
    assert_eq!(&output.to_string(), "a\n  b");
}

#[test]
fn unindent_undoes_indent_and_stops_at_zero() {
    let mut output = Output::default();
    output.indent(1);
    output.indent(3);
    output.unindent(3);
    assert_eq!(output.current_indent(), 1);
    output.unindent(5);
    assert_eq!(output.current_indent(), 0);
}
