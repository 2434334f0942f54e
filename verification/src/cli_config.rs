//! The generator's settings, built from the values given on the command line.
use vstd::prelude::*;
use crate::case::lower_word;
use crate::error::Error;
use crate::lang::{absolute_under, lang_named, opt_view, proto_text, resolvable, Idl, InOutConfig, LangConfig};
use crate::paths::{joined, join_path};
use crate::protoc::{check_supported_languages, supported_languages};
use crate::text::{opt_text, views};

verus! {

/// The descriptor set file written when none is named.
pub const DEFAULT_DESCRIPTOR_SET_FILENAME: &'static str = "descriptor_set.proto";

/// The values given on the command line, as the argument parser hands them over.
pub struct CliArgs {
    pub idl: Option<String>,
    pub input: Option<String>,
    pub output_root: Option<String>,
    pub template_root: Option<String>,
    pub script_root: Option<String>,
    /// Each `--proto LANG OUTPUT`, as given.
    pub protos: Vec<Vec<String>>,
    /// Each `--template INPUT OUTPUT`, as given.
    pub templates: Vec<Vec<String>>,
    /// Each `--script INPUT OUTPUT`, as given.
    pub scripts: Vec<Vec<String>>,
    pub bypass: bool,
    pub includes: Vec<String>,
    pub init_script: Option<String>,
    pub init_template: Option<String>,
    pub descriptor_set_out: Option<String>,
    pub protoc_args: Vec<String>,
    /// The directory the program runs in.
    pub working_dir: String,
    /// The directory intermediate files are written to.
    pub intermediate_dir: String,
}

/// The generator's settings.
pub struct Config {
    pub idl: Idl,
    pub input: String,
    pub protos: Vec<LangConfig>,
    pub templates: Vec<InOutConfig>,
    pub scripts: Vec<InOutConfig>,
    pub bypass: bool,
    pub includes: Vec<String>,
    pub init_script_target: Option<String>,
    pub init_template_target: Option<String>,
    pub descriptor_set_path: String,
    pub extra_protoc_args: Vec<String>,
}

/// Whether a `--proto` value names a supported language and an output that can be made
/// absolute.
pub open spec fn proto_group_ok(g: Seq<Seq<char>>, output_root: Option<Seq<char>>) -> bool {
    g.len() >= 2 && resolvable(g[1], output_root) && lang_named(lower_word(g[0])) is Some
}

/// Whether an input/output value has both parts and both can be made absolute.
pub open spec fn in_out_group_ok(g: Seq<Seq<char>>, input_root: Option<Seq<char>>, output_root: Option<Seq<char>>) -> bool {
    g.len() >= 2 && resolvable(g[0], input_root) && resolvable(g[1], output_root)
}

/// The error refused `--proto` value `g` is reported with: a missing part, an output
/// that cannot be made absolute, or an unsupported language, checked in that order.
pub open spec fn proto_error(e: Error, g: Seq<Seq<char>>, output_root: Option<Seq<char>>) -> bool {
    if g.len() < 2 {
        e is Missing
    } else if !resolvable(g[1], output_root) {
        e matches Error::RelativePathWithoutRoot(s) && s@ == g[1]
    } else {
        e matches Error::UnsupportedLang(s) && s@ == g[0]
    }
}

/// The error refused input/output value `g` is reported with: a missing part, then an
/// input, then an output that cannot be made absolute.
pub open spec fn in_out_error(e: Error, g: Seq<Seq<char>>, input_root: Option<Seq<char>>, output_root: Option<Seq<char>>) -> bool {
    if g.len() < 2 {
        e is Missing
    } else if !resolvable(g[0], input_root) {
        e matches Error::RelativePathWithoutRoot(s) && s@ == g[0]
    } else {
        e matches Error::RelativePathWithoutRoot(s) && s@ == g[1]
    }
}

/// Whether `e` is the error of the first of `groups` that `ok` refuses.
pub open spec fn first_error(
    groups: Seq<Seq<Seq<char>>>,
    ok: spec_fn(Seq<Seq<char>>) -> bool,
    err: spec_fn(Seq<Seq<char>>) -> bool,
) -> bool {
    exists|k: int| 0 <= k < groups.len() && !ok(groups[k]) && err(groups[k])
        && forall|j: int| 0 <= j < k ==> #[trigger] ok(groups[j])
}

/// A list of grouped values, as text.
pub open spec fn groups_text(v: Seq<Vec<String>>) -> Seq<Seq<Seq<char>>> {
    v.map_values(|g: Vec<String>| views(g@))
}

/// The language configs of the `--proto` values, each output made absolute.
pub fn parse_protos(values: &Vec<Vec<String>>, output_root: Option<&str>) -> (r: Result<Vec<LangConfig>, Error>)
    ensures
        r is Ok <==> forall|i: int| 0 <= i < values@.len() ==> proto_group_ok(#[trigger] groups_text(values@)[i], opt_view(output_root)),
        r matches Ok(v) ==> v@.len() == values@.len() && forall|i: int| 0 <= i < v@.len() ==> {
            &&& Some((#[trigger] v@[i]).lang) == lang_named(lower_word(groups_text(values@)[i][0]))
            &&& v@[i].output@ == absolute_under(groups_text(values@)[i][1], opt_view(output_root).unwrap_or(Seq::empty()))
        },
        r matches Err(e) ==> first_error(groups_text(values@),
            |g: Seq<Seq<char>>| proto_group_ok(g, opt_view(output_root)),
            |g: Seq<Seq<char>>| proto_error(e, g, opt_view(output_root))),
{
    let mut configs: Vec<LangConfig> = Vec::new();
    let mut i: usize = 0;
    while i < values.len()
        invariant
            i <= values@.len(),
            configs@.len() == i,
            forall|k: int| 0 <= k < i ==> proto_group_ok(#[trigger] groups_text(values@)[k], opt_view(output_root)),
            forall|k: int| 0 <= k < i ==> {
                &&& Some((#[trigger] configs@[k]).lang) == lang_named(lower_word(groups_text(values@)[k][0]))
                &&& configs@[k].output@ == absolute_under(groups_text(values@)[k][1], opt_view(output_root).unwrap_or(Seq::empty()))
            },
        decreases values.len() - i,
    {
        let group = &values[i];
        assert(groups_text(values@)[i as int] == views(group@));
        if group.len() < 2 {
            let e = Error::Missing("--proto is missing LANG or OUTPUT".to_owned());
            assert(proto_error(e, groups_text(values@)[i as int], opt_view(output_root)));
            return Err(e);
        }
        let config = match LangConfig::from_config(group[0].as_str(), group[1].as_str(), output_root) {
            Ok(c) => c,
            Err(e) => {
                assert(proto_error(e, groups_text(values@)[i as int], opt_view(output_root)));
                return Err(e);
            },
        };
        configs.push(config);
        i = i + 1;
    }
    Ok(configs)
}

/// The input/output configs of the values of `arg_name`, each path made absolute with its
/// root.
pub fn parse_in_out_configs(
    arg_name: &str,
    values: &Vec<Vec<String>>,
    input_root: Option<&str>,
    output_root: Option<&str>,
) -> (r: Result<Vec<InOutConfig>, Error>)
    ensures
        r is Ok <==> forall|i: int| 0 <= i < values@.len()
            ==> in_out_group_ok(#[trigger] groups_text(values@)[i], opt_view(input_root), opt_view(output_root)),
        r matches Ok(v) ==> v@.len() == values@.len() && forall|i: int| 0 <= i < v@.len() ==> {
            &&& (#[trigger] v@[i]).input@ == absolute_under(groups_text(values@)[i][0], opt_view(input_root).unwrap_or(Seq::empty()))
            &&& v@[i].output@ == absolute_under(groups_text(values@)[i][1], opt_view(output_root).unwrap_or(Seq::empty()))
            &&& v@[i].overlays@.len() == 0
        },
        r matches Err(e) ==> first_error(groups_text(values@),
            |g: Seq<Seq<char>>| in_out_group_ok(g, opt_view(input_root), opt_view(output_root)),
            |g: Seq<Seq<char>>| in_out_error(e, g, opt_view(input_root), opt_view(output_root))),
{
    let mut configs: Vec<InOutConfig> = Vec::new();
    let mut i: usize = 0;
    while i < values.len()
        invariant
            i <= values@.len(),
            configs@.len() == i,
            forall|k: int| 0 <= k < i
                ==> in_out_group_ok(#[trigger] groups_text(values@)[k], opt_view(input_root), opt_view(output_root)),
            forall|k: int| 0 <= k < i ==> {
                &&& (#[trigger] configs@[k]).input@ == absolute_under(groups_text(values@)[k][0], opt_view(input_root).unwrap_or(Seq::empty()))
                &&& configs@[k].output@ == absolute_under(groups_text(values@)[k][1], opt_view(output_root).unwrap_or(Seq::empty()))
                &&& configs@[k].overlays@.len() == 0
            },
        decreases values.len() - i,
    {
        let group = &values[i];
        assert(groups_text(values@)[i as int] == views(group@));
        if group.len() < 2 {
            let mut message = "--".to_owned();
            message.append(arg_name);
            message.append(" is missing INPUT or OUTPUT");
            let e = Error::Missing(message);
            assert(in_out_error(e, groups_text(values@)[i as int], opt_view(input_root), opt_view(output_root)));
            return Err(e);
        }
        let config = match InOutConfig::from_config(group[0].as_str(), group[1].as_str(), input_root, output_root) {
            Ok(c) => c,
            Err(e) => {
                assert(in_out_error(e, groups_text(values@)[i as int], opt_view(input_root), opt_view(output_root)));
                return Err(e);
            },
        };
        configs.push(config);
        i = i + 1;
    }
    Ok(configs)
}

/// A path given on the command line, taken below the working directory.
pub open spec fn from_working_dir(working_dir: Seq<char>, v: Option<String>) -> Option<Seq<char>> {
    match v {
        None => None,
        Some(s) => Some(joined(working_dir, s@)),
    }
}

fn path_from_arg(working_dir: &str, v: &Option<String>) -> (r: Option<String>)
    ensures
        opt_text(r) == from_working_dir(working_dir@, *v),
{
    match v {
        None => None,
        Some(s) => Some(join_path(working_dir, s.as_str())),
    }
}

fn as_str_opt(o: &Option<String>) -> (r: Option<&str>)
    ensures
        opt_view(r) == opt_text(*o),
{
    match o {
        None => None,
        Some(s) => Some(s.as_str()),
    }
}

/// Whether the command line values make a config: the IDL is `proto`, and the
/// `--proto`, `--template` and `--script` values can be read.
pub open spec fn args_ok(args: CliArgs) -> bool {
    &&& args.idl matches Some(i) && i@ == proto_text()
    &&& protos_ok(args)
    &&& templates_ok(args)
    &&& scripts_ok(args)
}

/// Whether every `--proto` value can be read.
pub open spec fn protos_ok(args: CliArgs) -> bool {
    let output_root = from_working_dir(args.working_dir@, args.output_root);
    forall|k: int| 0 <= k < args.protos@.len() ==> proto_group_ok(#[trigger] groups_text(args.protos@)[k], output_root)
}

/// Whether every `--template` value can be read.
pub open spec fn templates_ok(args: CliArgs) -> bool {
    let output_root = from_working_dir(args.working_dir@, args.output_root);
    forall|k: int| 0 <= k < args.templates@.len() ==> in_out_group_ok(#[trigger] groups_text(args.templates@)[k],
        from_working_dir(args.working_dir@, args.template_root), output_root)
}

/// Whether every `--script` value can be read.
pub open spec fn scripts_ok(args: CliArgs) -> bool {
    let output_root = from_working_dir(args.working_dir@, args.output_root);
    forall|k: int| 0 <= k < args.scripts@.len() ==> in_out_group_ok(#[trigger] groups_text(args.scripts@)[k],
        from_working_dir(args.working_dir@, args.script_root), output_root)
}

/// The error refused command line values are reported with: a missing or unsupported
/// IDL, else the error of the first refused `--proto`, `--template` or `--script` value,
/// in that order.
pub open spec fn args_error(e: Error, args: CliArgs) -> bool {
    let output_root = from_working_dir(args.working_dir@, args.output_root);
    let template_root = from_working_dir(args.working_dir@, args.template_root);
    let script_root = from_working_dir(args.working_dir@, args.script_root);
    match args.idl {
        None => e is Missing,
        Some(i) => if i@ != proto_text() {
            e matches Error::UnsupportedIdl(s) && s@ == i@
        } else if !protos_ok(args) {
            first_error(groups_text(args.protos@),
                |g: Seq<Seq<char>>| proto_group_ok(g, output_root),
                |g: Seq<Seq<char>>| proto_error(e, g, output_root))
        } else if !templates_ok(args) {
            first_error(groups_text(args.templates@),
                |g: Seq<Seq<char>>| in_out_group_ok(g, template_root, output_root),
                |g: Seq<Seq<char>>| in_out_error(e, g, template_root, output_root))
        } else {
            first_error(groups_text(args.scripts@),
                |g: Seq<Seq<char>>| in_out_group_ok(g, script_root, output_root),
                |g: Seq<Seq<char>>| in_out_error(e, g, script_root, output_root))
        },
    }
}

impl Config {
    /// The config for the command line values: paths given are taken below the working
    /// directory, the descriptor set goes into the intermediate directory (under its
    /// default name unless one is given), relative outputs below the output root and
    /// relative inputs below the template or script root.
    pub fn from_args(args: &CliArgs) -> (r: Result<Config, Error>)
        ensures
            r is Ok <==> args_ok(*args),
            r matches Err(e) ==> args_error(e, *args),
            r matches Ok(c) ==> {
                let output_root = from_working_dir(args.working_dir@, args.output_root);
                &&& c.idl == Idl::Proto
                &&& c.input@ == (match from_working_dir(args.working_dir@, args.input) { Some(p) => p, None => Seq::empty() })
                &&& c.protos@.len() == args.protos@.len()
                &&& forall|k: int| 0 <= k < c.protos@.len() ==> Some((#[trigger] c.protos@[k]).lang) == lang_named(lower_word(groups_text(args.protos@)[k][0]))
                    && c.protos@[k].output@ == absolute_under(groups_text(args.protos@)[k][1], output_root.unwrap_or(Seq::empty()))
                &&& c.templates@.len() == args.templates@.len()
                &&& forall|k: int| 0 <= k < c.templates@.len() ==> (#[trigger] c.templates@[k]).input@
                    == absolute_under(groups_text(args.templates@)[k][0],
                        from_working_dir(args.working_dir@, args.template_root).unwrap_or(Seq::empty()))
                    && c.templates@[k].output@ == absolute_under(groups_text(args.templates@)[k][1], output_root.unwrap_or(Seq::empty()))
                    && c.templates@[k].overlays@.len() == 0
                &&& c.scripts@.len() == args.scripts@.len()
                &&& forall|k: int| 0 <= k < c.scripts@.len() ==> (#[trigger] c.scripts@[k]).input@
                    == absolute_under(groups_text(args.scripts@)[k][0],
                        from_working_dir(args.working_dir@, args.script_root).unwrap_or(Seq::empty()))
                    && c.scripts@[k].output@ == absolute_under(groups_text(args.scripts@)[k][1], output_root.unwrap_or(Seq::empty()))
                    && c.scripts@[k].overlays@.len() == 0
                &&& c.bypass == args.bypass
                &&& c.includes@ == args.includes@
                &&& opt_text(c.init_script_target) == from_working_dir(args.working_dir@, args.init_script)
                &&& opt_text(c.init_template_target) == from_working_dir(args.working_dir@, args.init_template)
                &&& c.descriptor_set_path@ == joined(args.intermediate_dir@, match args.descriptor_set_out {
                    Some(d) => d@,
                    None => DEFAULT_DESCRIPTOR_SET_FILENAME@,
                })
                &&& c.extra_protoc_args@ == args.protoc_args@
            },
    {
        let input = match path_from_arg(args.working_dir.as_str(), &args.input) {
            Some(p) => p,
            None => String::new(),
        };
        let output_root = path_from_arg(args.working_dir.as_str(), &args.output_root);
        let template_root = path_from_arg(args.working_dir.as_str(), &args.template_root);
        let script_root = path_from_arg(args.working_dir.as_str(), &args.script_root);
        let descriptor_name = match &args.descriptor_set_out {
            Some(d) => d.as_str(),
            None => DEFAULT_DESCRIPTOR_SET_FILENAME,
        };
        let descriptor_set_path = join_path(args.intermediate_dir.as_str(), descriptor_name);
        let idl = match &args.idl {
            None => return Err(Error::Missing("IDL missing default value.".to_owned())),
            Some(i) => match Idl::from_str(i.as_str()) {
                Ok(idl) => idl,
                Err(e) => return Err(e),
            },
        };
        let protos = match parse_protos(&args.protos, as_str_opt(&output_root)) {
            Ok(p) => p,
            Err(e) => return Err(e),
        };
        let templates = match parse_in_out_configs("template", &args.templates, as_str_opt(&template_root), as_str_opt(&output_root)) {
            Ok(t) => t,
            Err(e) => return Err(e),
        };
        let scripts = match parse_in_out_configs("script", &args.scripts, as_str_opt(&script_root), as_str_opt(&output_root)) {
            Ok(s) => s,
            Err(e) => return Err(e),
        };
        let supported = supported_languages();
        assert forall|k: int| 0 <= k < protos@.len() implies supported@.contains(#[trigger] protos@[k].lang) by {
            crate::protoc::lemma_supported(protos@[k].lang);
        }
        match check_supported_languages("proto", &protos, &supported) {
            Ok(()) => {},
            Err(e) => return Err(e),
        }
        Ok(Config {
            idl,
            input,
            protos,
            templates,
            scripts,
            bypass: args.bypass,
            includes: crate::descriptor::clone_strings(&args.includes),
            init_script_target: path_from_arg(args.working_dir.as_str(), &args.init_script),
            init_template_target: path_from_arg(args.working_dir.as_str(), &args.init_template),
            descriptor_set_path,
            extra_protoc_args: crate::descriptor::clone_strings(&args.protoc_args),
        })
    }
}

/// What a run does with its config: set up a script directory, set up a template
/// directory, or generate code.
pub enum Action {
    InitScript(String),
    InitTemplate(String),
    Generate,
}

/// What a run does: a script directory to set up comes first, then a template directory;
/// with neither, code is generated.
pub fn action_of(config: &Config) -> (r: Action)
    ensures
        match config.init_script_target {
            Some(t) => r matches Action::InitScript(s) && s@ == t@,
            None => match config.init_template_target {
                Some(t) => r matches Action::InitTemplate(s) && s@ == t@,
                None => r is Generate,
            },
        },
{
    match &config.init_script_target {
        Some(t) => Action::InitScript(t.clone()),
        None => match &config.init_template_target {
            Some(t) => Action::InitTemplate(t.clone()),
            None => Action::Generate,
        },
    }
}

} // verus!
