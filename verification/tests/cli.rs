use protox::error::Error;
use protox::lang::{Idl, Lang, LangOption, Options, ScriptConfig, OUTPUT_SEPARATOR};
use protox::protoc::{arg_with_value, collect_proto_outputs, Protoc, ProtocRunner};
use protox::util::is_proto_ext;

#[test]
fn idl_proto() -> Result<(), Error> {
    let idl = Idl::from_str(&Idl::Proto.as_config())?;
    assert_eq!(idl, Idl::Proto);
    Ok(())
}

#[test]
fn lang_proto() -> Result<(), Error> {
    let lang = Lang::from_str(&Lang::CSharp.as_config())?;
    assert_eq!(lang, Lang::CSharp);
    Ok(())
}

#[test]
fn unsupported_idl_is_error() {
    assert_eq!(Idl::from_str("thrift"), Err(Error::UnsupportedIdl("thrift".to_string())));
}

#[test]
fn from_config_with_default_output() -> Result<(), Error> {
    let option = LangOption::from_config(&Lang::CSharp.as_config(), Some(""), "proto", "/work")?;
    assert_eq!(option.lang, Lang::CSharp);
    assert_eq!(option.output, "proto_csharp");
    Ok(())
}

#[test]
fn lang_option_from_config_with_explicit_output() -> Result<(), Error> {
    let output_path = "path/to/output";
    let config = [Lang::CSharp.as_config().as_str(), output_path].join(&OUTPUT_SEPARATOR.to_string());
    let option = LangOption::from_config(&config, Some(""), "proto", "/work")?;
    assert_eq!(option.lang, Lang::CSharp);
    assert_eq!(option.output, output_path);
    Ok(())
}

#[test]
fn lang_option_from_config_with_unsupported_lang() {
    assert!(LangOption::from_config("blah unsupported lang", None, "proto", "/work").is_err());
}

#[test]
fn lang_option_relative_with_root() -> Result<(), Error> {
    let option = LangOption::from_config("csharp=rel/path", Some("/tmp/root"), "proto", "/work")?;
    assert_eq!(option.output, "/tmp/root/rel/path");
    Ok(())
}

#[test]
fn relative_no_root() -> Result<(), Error> {
    let option = LangOption::from_config("csharp=rel/path", None, "proto", "/work")?;
    assert_eq!(option.output, "/work/rel/path");
    Ok(())
}

#[test]
fn absolute_no_root() -> Result<(), Error> {
    let option = LangOption::from_config("csharp=/abs/path", None, "proto", "/work")?;
    assert_eq!(option.output, "/abs/path");
    Ok(())
}

#[test]
fn options_from_cli_values() -> Result<(), Error> {
    let options = Options::from_cli(Some("proto"), Some("in/dir"), Some("out"))?;
    assert_eq!(options.idl, Idl::Proto);
    assert_eq!(options.input, "in/dir");
    assert_eq!(options.output_root, Some("out".to_string()));
    Ok(())
}

#[test]
fn options_missing_input_is_error() {
    assert!(matches!(Options::from_cli(Some("proto"), None, None), Err(Error::Missing(_))));
    assert!(matches!(Options::from_cli(Some("idl2"), Some("in"), None), Err(Error::UnsupportedIdl(_))));
}

#[test]
fn runner_proto_path() {
    let input = "test/input";
    let mut options = Options::default();
    options.input = input.to_string();
    let protoc = ProtocRunner::with_options(options);
    let args = protoc.collect_args();
    assert!(args.contains(&"--proto_path".to_string()));
    assert_arg_pair_exists(&args, "--proto_path", input);
}

fn assert_arg_pair_exists(args: &Vec<String>, first: &str, second: &str) {
    let pos = args
        .iter()
        .position(|arg| arg == first)
        .expect("first arg of the pair should exist");
    assert!(pos < args.len(), "no more elements found after first arg in pair");
    assert_eq!(args.get(pos + 1).expect("missing second arg"), second);
}

#[test]
fn run_valid() {
    assert!(is_proto_ext("path/to/file.proto"));
}

#[test]
fn run_no_ext() {
    assert!(!is_proto_ext("path/to/file"));
}

#[test]
fn run_different_ext() {
    assert!(!is_proto_ext("path/to/filep.roto"));
}

#[test]
fn protoc_valid() {
    assert!(is_proto_ext("path/to/file.proto"));
}

#[test]
fn protoc_no_ext() {
    assert!(!is_proto_ext("path/to/file"));
}

#[test]
fn protoc_different_ext() {
    assert!(!is_proto_ext("path/to/filep.roto"));
}

#[test]
fn input_valid() {
    assert!(is_proto_ext("path/to/file.proto"));
}

#[test]
fn input_no_ext() {
    assert!(!is_proto_ext("path/to/file"));
}

#[test]
fn input_different_ext() {
    assert!(!is_proto_ext("path/to/filep.roto"));
}

fn quote_arg(arg: &str) -> String {
    ["\"", arg, "\""].concat()
}

#[test]
fn passes_extra_protoc_args() {
    let extra_protoc_args = vec!["--test1", "--test2=hello"];
    let quoted: Vec<String> = extra_protoc_args.iter().map(|a| quote_arg(a)).collect();
    let protoc = Protoc::new("input", &Vec::new(), "out.desc", &quoted);
    let args = protoc.command_args();
    assert_eq!(&args[args.len() - 2..], &["--test1".to_string(), "--test2=hello".to_string()]);
}

#[test]
fn collects_extra_includes() {
    let includes = vec!["include0".to_string(), "include1".to_string()];
    let protoc = Protoc::new("input", &includes, "out.desc", &Vec::new());
    let args = protoc.command_args();
    assert_eq!(args[0], arg_with_value("proto_path", "input"));
    for dir in &includes {
        assert!(args.contains(&arg_with_value("proto_path", dir)));
    }
    assert_eq!(arg_with_value("proto_path", "x"), "--proto_path=x");
}

#[test]
fn input_files_follow_args() {
    let mut protoc = Protoc::new("in", &Vec::new(), "set.desc", &Vec::new());
    let mut files = vec!["a.proto".to_string()];
    let mut extra = vec!["--x".to_string()];
    protoc.add_input_files(&mut files);
    protoc.add_args(&mut extra);
    let args = protoc.command_args();
    assert_eq!(
        args,
        vec![
            "--proto_path=in".to_string(),
            "--descriptor_set_out=set.desc".to_string(),
            "--include_source_info".to_string(),
            "--x".to_string(),
            "a.proto".to_string(),
        ]
    );
    assert!(files.is_empty() && extra.is_empty());
}

#[test]
fn script_config_name() -> Result<(), Error> {
    let config = ScriptConfig::from_config("name", None, None, Some(""), Some(""), &vec![])?;
    assert_eq!(&config.name, "name");
    Ok(())
}

#[test]
fn in_only() -> Result<(), Error> {
    let config = ScriptConfig::from_config("name", Some("/cur/dir"), None, None, Some(""), &vec![])?;
    assert_eq!(config.input, "/cur/dir");
    Ok(())
}

#[test]
fn root_and_in() -> Result<(), Error> {
    let config = ScriptConfig::from_config("name", Some("other"), None, Some("/cur"), Some(""), &vec![])?;
    assert_eq!(config.input, "/cur/other");
    Ok(())
}

#[test]
fn root_and_out() -> Result<(), Error> {
    let config = ScriptConfig::from_config("name", None, Some("other"), Some(""), Some("/cur"), &vec![])?;
    assert_eq!(config.output, "/cur/other");
    Ok(())
}

#[test]
fn overlays() -> Result<(), Error> {
    let config = ScriptConfig::from_config("name", None, None, Some("/cur"), Some(""), &vec!["a", "/cur/test/b", "c"])?;
    assert_eq!(config.overlays, vec!["/cur/a".to_string(), "/cur/test/b".to_string(), "/cur/c".to_string()]);
    Ok(())
}

#[test]
fn script_config_without_root_is_error() {
    assert!(matches!(
        ScriptConfig::from_config("name", None, None, None, Some(""), &vec![]),
        Err(Error::RelativePathWithoutRoot(_))
    ));
}

#[test]
fn proto_output_args() {
    let protos = vec![
        protox::lang::LangConfig { lang: Lang::CSharp, output: "/out/cs".to_owned() },
        protox::lang::LangConfig { lang: Lang::CSharp, output: "/out/other".to_owned() },
    ];
    assert_eq!(collect_proto_outputs(&protos), vec!["--csharp_out=/out/cs".to_owned(), "--csharp_out=/out/other".to_owned()]);
    assert!(collect_proto_outputs(&vec![]).is_empty());
}

#[test]
fn lang_config_names_round_trip() -> Result<(), Error> {
    for lang in protox::protoc::supported_languages() {
        assert_eq!(Lang::from_str(&lang.as_config())?, lang);
    }
    assert_eq!(Lang::Javascript.as_config(), "js");
    assert_eq!(Lang::ObjectiveC.as_config(), "objc");
    assert_eq!(Lang::from_str("unsupported"), Err(Error::UnsupportedLang("unsupported".to_owned())));
    assert_eq!(protox::protoc::lang_list(&protox::protoc::supported_languages()), "cpp, csharp, java, js, kotlin, objc, php, python, ruby, rust");
    Ok(())
}
