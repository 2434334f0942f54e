use protox::cli_config::{action_of, parse_in_out_configs, parse_protos, Action, CliArgs, Config, DEFAULT_DESCRIPTOR_SET_FILENAME};
use protox::error::Error;
use protox::lang::{Idl, Lang};

fn required_args(input: &str, proto_output: &str) -> CliArgs {
    CliArgs {
        idl: Some("proto".to_owned()),
        input: Some(input.to_owned()),
        output_root: None,
        template_root: None,
        script_root: None,
        protos: vec![vec!["cpp".to_owned(), proto_output.to_owned()]],
        templates: vec![],
        scripts: vec![],
        bypass: false,
        includes: vec![],
        init_script: None,
        init_template: None,
        descriptor_set_out: None,
        protoc_args: vec![],
        working_dir: "/work".to_owned(),
        intermediate_dir: "/tmp/intermediate".to_owned(),
    }
}

fn quote(value: &str) -> String {
    ["\"", value, "\""].concat()
}

#[test]
fn parse_input() -> Result<(), Error> {
    let mut args = required_args("/work", "proto_cpp");
    args.output_root = Some("/work".to_owned());
    let config = Config::from_args(&args)?;
    assert_eq!(config.input, "/work");
    assert_eq!(config.idl, Idl::Proto);
    assert_eq!(config.protos[0].lang, Lang::Cpp);
    assert_eq!(config.protos[0].output, "/work/proto_cpp");
    Ok(())
}

#[test]
fn default() -> Result<(), Error> {
    let config = Config::from_args(&required_args("path/to/input", "/work/proto_cpp"))?;
    assert_eq!(config.descriptor_set_path, format!("/tmp/intermediate/{}", DEFAULT_DESCRIPTOR_SET_FILENAME));
    Ok(())
}

#[test]
fn explicit() -> Result<(), Error> {
    let mut args = required_args("path/to/input", "/work/proto_cpp");
    args.descriptor_set_out = Some("path/to/desc/set".to_owned());
    let config = Config::from_args(&args)?;
    assert_eq!(config.descriptor_set_path, "/tmp/intermediate/path/to/desc/set");
    Ok(())
}

#[test]
fn parse_extra_protoc_args() -> Result<(), Error> {
    let extra_args = [quote("--custom-arg=i/am/a/path"), quote("--other-arg=\"string\"")];
    let mut args = required_args("path/to/input", "/work/proto_cpp");
    args.protoc_args = extra_args.to_vec();
    let config = Config::from_args(&args)?;
    assert_eq!(config.extra_protoc_args.get(0), Some(&extra_args[0]));
    assert_eq!(config.extra_protoc_args.get(1), Some(&extra_args[1]));
    Ok(())
}

#[test]
fn parse_includes() -> Result<(), Error> {
    let includes = [quote("include0"), quote("include1")];
    let mut args = required_args("path/to/input", "/work/proto_cpp");
    args.includes = includes.to_vec();
    let config = Config::from_args(&args)?;
    assert_eq!(config.includes.get(0), Some(&includes[0]));
    assert_eq!(config.includes.get(1), Some(&includes[1]));
    Ok(())
}

#[test]
fn input_is_taken_below_working_dir() -> Result<(), Error> {
    let config = Config::from_args(&required_args("path/to/input", "/out/proto"))?;
    assert_eq!(config.input, "/work/path/to/input");
    Ok(())
}

#[test]
fn missing_idl_is_error() {
    let mut args = required_args("in", "/out");
    args.idl = None;
    assert!(matches!(Config::from_args(&args), Err(Error::Missing(_))));
}

#[test]
fn unsupported_idl_in_args_is_error() {
    let mut args = required_args("in", "/out");
    args.idl = Some("thrift".to_owned());
    assert!(matches!(Config::from_args(&args), Err(Error::UnsupportedIdl(s)) if s == "thrift"));
}

#[test]
fn relative_proto_output_without_root_is_error() {
    let args = required_args("in", "proto_out");
    assert!(matches!(Config::from_args(&args), Err(Error::RelativePathWithoutRoot(s)) if s == "proto_out"));
}

#[test]
fn templates_and_scripts_are_taken_below_their_roots() -> Result<(), Error> {
    let mut args = required_args("in", "/out/proto");
    args.template_root = Some("templates".to_owned());
    args.script_root = Some("/scripts".to_owned());
    args.output_root = Some("out".to_owned());
    args.templates = vec![vec!["t".to_owned(), "gen_t".to_owned()]];
    args.scripts = vec![vec!["s".to_owned(), "/abs/gen_s".to_owned()]];
    let config = Config::from_args(&args)?;
    assert_eq!(config.templates[0].input, "/work/templates/t");
    assert_eq!(config.templates[0].output, "/work/out/gen_t");
    assert_eq!(config.scripts[0].input, "/scripts/s");
    assert_eq!(config.scripts[0].output, "/abs/gen_s");
    Ok(())
}

#[test]
fn init_targets_are_taken_below_working_dir() -> Result<(), Error> {
    let mut args = required_args("in", "/out/proto");
    args.init_script = Some("new_scripts".to_owned());
    let config = Config::from_args(&args)?;
    assert_eq!(config.init_script_target, Some("/work/new_scripts".to_owned()));
    assert_eq!(config.init_template_target, None);
    assert!(matches!(action_of(&config), Action::InitScript(t) if t == "/work/new_scripts"));
    Ok(())
}

#[test]
fn init_template_action() -> Result<(), Error> {
    let mut args = required_args("in", "/out/proto");
    args.init_template = Some("/abs/templates".to_owned());
    let config = Config::from_args(&args)?;
    assert!(matches!(action_of(&config), Action::InitTemplate(t) if t == "/abs/templates"));
    Ok(())
}

#[test]
fn no_init_target_generates() -> Result<(), Error> {
    let config = Config::from_args(&required_args("in", "/out/proto"))?;
    assert!(matches!(action_of(&config), Action::Generate));
    Ok(())
}

#[test]
fn proto_missing_output_is_error() {
    let values = vec![vec!["cpp".to_owned()]];
    assert!(matches!(parse_protos(&values, None), Err(Error::Missing(_))));
}

#[test]
fn proto_unsupported_lang_is_error() {
    let values = vec![vec!["fortran".to_owned(), "/out".to_owned()]];
    assert!(matches!(parse_protos(&values, None), Err(Error::UnsupportedLang(s)) if s == "fortran"));
}

#[test]
fn in_out_missing_output_is_error() {
    let values = vec![vec!["in".to_owned()]];
    assert!(matches!(
        parse_in_out_configs("template", &values, None, None),
        Err(Error::Missing(s)) if s == "--template is missing INPUT or OUTPUT"
    ));
}

#[test]
fn in_out_relative_input_without_root_is_error() {
    let values = vec![vec!["in".to_owned(), "/out".to_owned()]];
    assert!(matches!(
        parse_in_out_configs("script", &values, None, None),
        Err(Error::RelativePathWithoutRoot(s)) if s == "in"
    ));
}

#[test]
fn every_protoc_language_parses() -> Result<(), Error> {
    let names = ["cpp", "CSharp", "java", "js", "kotlin", "objc", "php", "python", "ruby", "rust"];
    let values: Vec<Vec<String>> = names.iter().map(|n| vec![n.to_string(), "/out".to_owned()]).collect();
    let configs = parse_protos(&values, None)?;
    let langs: Vec<Lang> = configs.iter().map(|c| c.lang).collect();
    assert_eq!(
        langs,
        vec![
            Lang::Cpp,
            Lang::CSharp,
            Lang::Java,
            Lang::Javascript,
            Lang::Kotlin,
            Lang::ObjectiveC,
            Lang::Php,
            Lang::Python,
            Lang::Ruby,
            Lang::Rust
        ]
    );
    Ok(())
}
