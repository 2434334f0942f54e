//! The arguments handed to `protoc`, the protobuf compiler.
use vstd::prelude::*;
use crate::error::Error;
use crate::lang::{lang_config_name, Lang, LangConfig, Options};
use crate::text::{join, join_spec, views, lemma_views_push};
use crate::util::unquote_arg;

verus! {

/// `--arg=value`
pub open spec fn arg_text(arg: Seq<char>, value: Seq<char>) -> Seq<char> {
    seq!['-', '-'] + arg + seq!['='] + value
}

/// `proto_path`, the protoc option that names an import directory.
pub open spec fn proto_path_text() -> Seq<char> {
    seq!['p', 'r', 'o', 't', 'o', '_', 'p', 'a', 't', 'h']
}

/// `descriptor_set_out`, the protoc option that names the descriptor set file.
pub open spec fn descriptor_set_out_text() -> Seq<char> {
    seq!['d', 'e', 's', 'c', 'r', 'i', 'p', 't', 'o', 'r', '_', 's', 'e', 't', '_', 'o', 'u', 't']
}

/// `--include_source_info`, which keeps source locations in the descriptor set.
pub open spec fn include_source_info_text() -> Seq<char> {
    seq!['-', '-', 'i', 'n', 'c', 'l', 'u', 'd', 'e', '_', 's', 'o', 'u', 'r', 'c', 'e', '_', 'i', 'n', 'f', 'o']
}

/// `--arg=value`, the form in which protoc takes an option with a value.
pub fn arg_with_value(arg: &str, value: &str) -> (r: String)
    ensures
        r@ == arg_text(arg@, value@),
{
    let mut r = String::new();
    r.append("--");
    r.append(arg);
    r.append("=");
    r.append(value);
    proof {
        reveal_strlit("--");
        reveal_strlit("=");
        assert(r@ =~= arg_text(arg@, value@));
    }
    r
}

/// `val` between double quotes.
pub fn quote(val: &str) -> (r: String)
    ensures
        r@ == seq!['"'] + val@ + seq!['"'],
{
    let mut r = String::new();
    r.append("\"");
    r.append(val);
    r.append("\"");
    proof {
        reveal_strlit("\"");
    }
    r
}

/// The arguments of a protoc run, kept until it is executed; input files always come
/// last.
pub struct Protoc {
    args: Vec<String>,
    input_files: Vec<String>,
}

/// The extra arguments as given on the command line, each without its enclosing quotes.
pub open spec fn unquoted_all(args: Seq<Seq<char>>) -> Seq<Seq<char>> {
    args.map_values(|a: Seq<char>| a.subrange(1, a.len() - 1))
}

/// The arguments protoc is started with for `input` and `includes`, writing its
/// descriptor set with source info to `descriptor_set_path`, then the extra arguments.
pub open spec fn base_args(
    input: Seq<char>,
    includes: Seq<Seq<char>>,
    descriptor_set_path: Seq<char>,
    extra: Seq<Seq<char>>,
) -> Seq<Seq<char>> {
    seq![arg_text(proto_path_text(), input)]
        + includes.map_values(|i: Seq<char>| arg_text(proto_path_text(), i))
        + seq![arg_text(descriptor_set_out_text(), descriptor_set_path), include_source_info_text()]
        + unquoted_all(extra)
}

impl View for Protoc {
    type V = (Seq<Seq<char>>, Seq<Seq<char>>);

    closed spec fn view(&self) -> (Seq<Seq<char>>, Seq<Seq<char>>) {
        (views(self.args@), views(self.input_files@))
    }
}

impl Protoc {
    /// The protoc arguments for the input directory `input`, which the caller has checked
    /// to exist, the extra import directories, the descriptor set output and the extra
    /// arguments, each of which is enclosed in quotes.
    pub fn new(
        input: &str,
        includes: &Vec<String>,
        descriptor_set_path: &str,
        extra_protoc_args: &Vec<String>,
    ) -> (r: Protoc)
        requires
            forall|i: int| 0 <= i < extra_protoc_args@.len() ==> #[trigger] extra_protoc_args@[i]@.len() >= 2,
        ensures
            r@.0 == base_args(input@, views(includes@), descriptor_set_path@, views(extra_protoc_args@)),
            r@.1.len() == 0,
    {
        proof {
            reveal_strlit("proto_path");
            reveal_strlit("descriptor_set_out");
            reveal_strlit("--include_source_info");
            assert("proto_path"@ =~= proto_path_text());
            assert("descriptor_set_out"@ =~= descriptor_set_out_text());
            assert("--include_source_info"@ =~= include_source_info_text());
        }
        let mut args: Vec<String> = Vec::new();
        args.push(arg_with_value("proto_path", input));
        let mut i: usize = 0;
        while i < includes.len()
            invariant
                i <= includes.len(),
                "proto_path"@ == proto_path_text(),
                views(args@) == seq![arg_text(proto_path_text(), input@)]
                    + views(includes@).take(i as int).map_values(|x: Seq<char>| arg_text(proto_path_text(), x)),
            decreases includes.len() - i,
        {
            let ghost before = args@;
            let a = arg_with_value("proto_path", includes[i].as_str());
            args.push(a);
            proof {
                lemma_views_push(before, a);
                assert(views(includes@).take(i + 1) =~= views(includes@).take(i as int).push(includes@[i as int]@));
            }
            i = i + 1;
            assert(views(args@) =~= seq![arg_text(proto_path_text(), input@)]
                + views(includes@).take(i as int).map_values(|x: Seq<char>| arg_text(proto_path_text(), x)));
        }
        assert(views(includes@).take(includes@.len() as int) =~= views(includes@));
        args.push(arg_with_value("descriptor_set_out", descriptor_set_path));
        args.push("--include_source_info".to_owned());
        let ghost before = views(args@);
        let mut j: usize = 0;
        while j < extra_protoc_args.len()
            invariant
                j <= extra_protoc_args.len(),
                forall|k: int| 0 <= k < extra_protoc_args@.len() ==> #[trigger] extra_protoc_args@[k]@.len() >= 2,
                views(args@) == before + unquoted_all(views(extra_protoc_args@).take(j as int)),
            decreases extra_protoc_args.len() - j,
        {
            let ghost prev = args@;
            let a = unquote_arg(extra_protoc_args[j].as_str());
            args.push(a);
            proof {
                lemma_views_push(prev, a);
                assert(views(extra_protoc_args@).take(j + 1) =~= views(extra_protoc_args@).take(j as int).push(extra_protoc_args@[j as int]@));
            }
            j = j + 1;
            assert(views(args@) =~= before + unquoted_all(views(extra_protoc_args@).take(j as int)));
        }
        assert(views(extra_protoc_args@).take(extra_protoc_args@.len() as int) =~= views(extra_protoc_args@));
        let r = Protoc { args, input_files: Vec::new() };
        assert(r@.0 =~= base_args(input@, views(includes@), descriptor_set_path@, views(extra_protoc_args@)));
        r
    }

    /// Moves `args` to the end of the arguments.
    pub fn add_args(&mut self, args: &mut Vec<String>)
        ensures
            final(self)@.0 == old(self)@.0 + views(old(args)@),
            final(self)@.1 == old(self)@.1,
            final(args)@.len() == 0,
    {
        self.args.append(args);
    }

    /// Moves `input_files` to the end of the input files, which follow all arguments.
    pub fn add_input_files(&mut self, input_files: &mut Vec<String>)
        ensures
            final(self)@.0 == old(self)@.0,
            final(self)@.1 == old(self)@.1 + views(old(input_files)@),
            final(input_files)@.len() == 0,
    {
        self.input_files.append(input_files);
    }

    /// The full command line: the arguments, then the input files.
    pub fn command_args(&self) -> (r: Vec<String>)
        ensures
            views(r@) == self@.0 + self@.1,
    {
        let mut r: Vec<String> = Vec::new();
        let mut i: usize = 0;
        while i < self.args.len()
            invariant
                i <= self.args.len(),
                views(r@) == views(self.args@).take(i as int),
            decreases self.args.len() - i,
        {
            let ghost prev = r@;
            let a = self.args[i].clone();
            r.push(a);
            proof {
                lemma_views_push(prev, a);
                assert(views(self.args@).take(i + 1) =~= views(self.args@).take(i as int).push(self.args@[i as int]@));
            }
            i = i + 1;
            assert(views(r@) =~= views(self.args@).take(i as int));
        }
        let mut j: usize = 0;
        assert(views(self.args@).take(self.args@.len() as int) =~= views(self.args@));
        while j < self.input_files.len()
            invariant
                j <= self.input_files.len(),
                views(r@) == views(self.args@) + views(self.input_files@).take(j as int),
            decreases self.input_files.len() - j,
        {
            let ghost prev = r@;
            let a = self.input_files[j].clone();
            r.push(a);
            proof {
                lemma_views_push(prev, a);
                assert(views(self.input_files@).take(j + 1) =~= views(self.input_files@).take(j as int).push(self.input_files@[j as int]@));
            }
            j = j + 1;
            assert(views(r@) =~= views(self.args@) + views(self.input_files@).take(j as int));
        }
        assert(views(self.input_files@).take(self.input_files@.len() as int) =~= views(self.input_files@));
        r
    }
}

/// The protoc runner of the command line tool: only the proto path is passed.
pub struct ProtocRunner {
    options: Options,
}

impl ProtocRunner {
    /// A runner with the given settings.
    pub fn with_options(options: Options) -> (r: ProtocRunner)
        ensures
            r.input_path() == options.input@,
    {
        ProtocRunner { options }
    }

    /// The input directory passed to protoc.
    pub closed spec fn input_path(&self) -> Seq<char> {
        self.options.input@
    }

    /// `--proto_path` followed by the input directory.
    pub fn collect_args(&self) -> (r: Vec<String>)
        ensures
            views(r@) == seq![seq!['-', '-'] + proto_path_text(), self.input_path()],
    {
        let mut args: Vec<String> = Vec::new();
        self.push_proto_path(&mut args);
        args
    }

    fn push_proto_path(&self, args: &mut Vec<String>)
        ensures
            views(final(args)@) == views(old(args)@) + seq![seq!['-', '-'] + proto_path_text(), self.input_path()],
    {
        proof {
            reveal_strlit("--proto_path");
            assert("--proto_path"@ =~= seq!['-', '-'] + proto_path_text());
        }
        let ghost start = args@;
        let flag = "--proto_path".to_owned();
        args.push(flag);
        let ghost mid = args@;
        let value = self.options.input.clone();
        args.push(value);
        proof {
            lemma_views_push(start, flag);
            lemma_views_push(mid, value);
        }
        assert(views(args@) =~= views(old(args)@) + seq![seq!['-', '-'] + proto_path_text(), self.input_path()]);
    }
}

/// The protoc option that writes the code of one language: `--LANG_out=OUTPUT`.
pub open spec fn output_arg(p: LangConfig) -> Seq<char> {
    arg_text(lang_config_name(p.lang) + seq!['_', 'o', 'u', 't'], p.output@)
}

/// The protoc output option of each configured language, in order.
pub fn collect_proto_outputs(protos: &Vec<LangConfig>) -> (r: Vec<String>)
    ensures
        views(r@) == protos@.map_values(|p: LangConfig| output_arg(p)),
{
    let mut args: Vec<String> = Vec::new();
    let mut i: usize = 0;
    while i < protos.len()
        invariant
            i <= protos@.len(),
            views(args@) == protos@.take(i as int).map_values(|p: LangConfig| output_arg(p)),
        decreases protos.len() - i,
    {
        let mut name = protos[i].lang.as_config();
        name.append("_out");
        proof {
            reveal_strlit("_out");
            assert("_out"@ =~= seq!['_', 'o', 'u', 't']);
            assert(name@ =~= lang_config_name(protos@[i as int].lang) + seq!['_', 'o', 'u', 't']);
        }
        let arg = arg_with_value(name.as_str(), protos[i].output.as_str());
        assert(arg@ == output_arg(protos@[i as int]));
        let ghost before = args@;
        args.push(arg);
        proof {
            lemma_views_push(before, arg);
            assert(protos@.take(i + 1).map_values(|p: LangConfig| output_arg(p))
                =~= protos@.take(i as int).map_values(|p: LangConfig| output_arg(p)).push(output_arg(protos@[i as int])));
        }
        i = i + 1;
    }
    assert(protos@.take(protos@.len() as int) =~= protos@);
    args
}

/// The languages protoc generates code for through this tool.
pub fn supported_languages() -> (r: Vec<Lang>)
    ensures
        r@ == supported_langs(),
{
    let mut r: Vec<Lang> = Vec::new();
    r.push(Lang::Cpp);
    r.push(Lang::CSharp);
    r.push(Lang::Java);
    r.push(Lang::Javascript);
    r.push(Lang::Kotlin);
    r.push(Lang::ObjectiveC);
    r.push(Lang::Php);
    r.push(Lang::Python);
    r.push(Lang::Ruby);
    r.push(Lang::Rust);
    assert(r@ =~= supported_langs());
    r
}

/// The languages protoc generates code for through this tool, in order.
pub open spec fn supported_langs() -> Seq<Lang> {
    seq![
        Lang::Cpp,
        Lang::CSharp,
        Lang::Java,
        Lang::Javascript,
        Lang::Kotlin,
        Lang::ObjectiveC,
        Lang::Php,
        Lang::Python,
        Lang::Ruby,
        Lang::Rust,
    ]
}

/// Every language but `Unsupported` is supported.
pub proof fn lemma_supported(l: Lang)
    requires
        l != Lang::Unsupported,
    ensures
        supported_langs().contains(l),
{
    let s = supported_langs();
    match l {
        Lang::Cpp => assert(s[0] == l),
        Lang::CSharp => assert(s[1] == l),
        Lang::Java => assert(s[2] == l),
        Lang::Javascript => assert(s[3] == l),
        Lang::Kotlin => assert(s[4] == l),
        Lang::ObjectiveC => assert(s[5] == l),
        Lang::Php => assert(s[6] == l),
        Lang::Python => assert(s[7] == l),
        Lang::Ruby => assert(s[8] == l),
        Lang::Rust => assert(s[9] == l),
        Lang::Unsupported => {},
    }
}

/// Whether `lang` is one of `supported`.
fn lang_in(lang: Lang, supported: &Vec<Lang>) -> (r: bool)
    ensures
        r == supported@.contains(lang),
{
    let mut i: usize = 0;
    while i < supported.len()
        invariant
            i <= supported.len(),
            forall|k: int| 0 <= k < i ==> supported@[k] != lang,
        decreases supported.len() - i,
    {
        if supported[i] == lang {
            return true;
        }
        i = i + 1;
    }
    false
}

/// An error naming the first configured language that is not among `supported`.
pub fn check_supported_languages(name: &str, configs: &Vec<LangConfig>, supported: &Vec<Lang>) -> (r: Result<(), Error>)
    ensures
        r is Ok <==> forall|i: int| 0 <= i < configs@.len() ==> supported@.contains(#[trigger] configs@[i].lang),
        r matches Err(e) ==> exists|i: int| 0 <= i < configs@.len()
            && !supported@.contains(configs@[i].lang)
            && (forall|j: int| 0 <= j < i ==> supported@.contains(#[trigger] configs@[j].lang))
            && (e matches Error::UnsupportedFor(l, n) && l@ == lang_config_name(configs@[i].lang) && n@ == name@),
{
    let mut i: usize = 0;
    while i < configs.len()
        invariant
            i <= configs.len(),
            forall|j: int| 0 <= j < i ==> supported@.contains(#[trigger] configs@[j].lang),
        decreases configs.len() - i,
    {
        if !lang_in(configs[i].lang, supported) {
            return Err(Error::UnsupportedFor(configs[i].lang.as_config(), name.to_owned()));
        }
        i = i + 1;
    }
    Ok(())
}

/// The configuration names of `list`, separated by `, `.
pub fn lang_list(list: &Vec<Lang>) -> (r: String)
    ensures
        r@ == join_spec(list@.map_values(|l: Lang| lang_config_name(l)), seq![',', ' ']),
{
    let mut names: Vec<String> = Vec::new();
    let mut i: usize = 0;
    while i < list.len()
        invariant
            i <= list.len(),
            names@.len() == i,
            forall|k: int| 0 <= k < i ==> #[trigger] names@[k]@ == lang_config_name(list@[k]),
        decreases list.len() - i,
    {
        names.push(list[i].as_config());
        i = i + 1;
    }
    proof {
        reveal_strlit(", ");
        assert(", "@ =~= seq![',', ' ']);
        assert(views(names@) =~= list@.map_values(|l: Lang| lang_config_name(l)));
    }
    join(&names, ", ")
}

/// `lines` separated by a blank line.
pub fn join_help(lines: &Vec<String>) -> (r: String)
    ensures
        r@ == join_spec(views(lines@), seq!['\n', '\n']),
{
    proof {
        reveal_strlit("\n\n");
        assert("\n\n"@ =~= seq!['\n', '\n']);
    }
    join(lines, "\n\n")
}

/// `options` without the entries equal to `opt`, in order.
pub fn all_except(options: &Vec<String>, opt: &str) -> (r: Vec<String>)
    ensures
        views(r@) == views(options@).filter(|o: Seq<char>| o != opt@),
{
    let ghost ov = views(options@);
    let mut r: Vec<String> = Vec::new();
    let mut i: usize = 0;
    while i < options.len()
        invariant
            i <= options.len(),
            ov == views(options@),
            views(r@) == ov.take(i as int).filter(|o: Seq<char>| o != opt@),
        decreases options.len() - i,
    {
        proof {
            reveal(Seq::filter);
            assert(ov.take(i + 1).drop_last() =~= ov.take(i as int));
        }
        if !crate::text::str_eq(options[i].as_str(), opt) {
            r.push(options[i].clone());
        }
        assert(views(r@) =~= ov.take(i + 1).filter(|o: Seq<char>| o != opt@));
        i = i + 1;
    }
    assert(ov.take(options@.len() as int) =~= ov);
    r
}

} // verus!
