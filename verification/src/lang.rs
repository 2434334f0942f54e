//! Input languages, output languages and the input/output settings built from the
//! command line.
use vstd::prelude::*;
use crate::case::{lower_word, to_ascii_lower};
use crate::error::Error;
use crate::paths::{file_name, file_stem_of, is_absolute, join_path, joined, path_file_name, path_with_extension, stem, with_extension};
use crate::text::{chars_of, find_char, first_index, str_eq, string_from, string_from_range};
use crate::util::path_as_absolute;

verus! {

/// The interface description language of the input files.
#[derive(Clone, Copy, Debug, PartialEq, Eq, Structural)]
pub enum Idl {
    Proto,
}

/// `proto`, the name of the protobuf IDL.
pub open spec fn proto_text() -> Seq<char> {
    seq!['p', 'r', 'o', 't', 'o']
}

/// `csharp`, the name of the C# language.
pub open spec fn csharp_text() -> Seq<char> {
    seq!['c', 's', 'h', 'a', 'r', 'p']
}

/// `unsupported`, the name written for a language that is not supported.
pub open spec fn unsupported_text() -> Seq<char> {
    seq!['u', 'n', 's', 'u', 'p', 'p', 'o', 'r', 't', 'e', 'd']
}

impl Idl {
    /// The IDL used when none is given.
    pub fn default() -> (r: Self)
        ensures
            r == Idl::Proto,
    {
        Idl::Proto
    }

    /// The IDL named by `s`; only `proto` is supported.
    pub fn from_str(s: &str) -> (r: Result<Self, Error>)
        ensures
            r matches Ok(idl) ==> s@ == proto_text() && idl == Idl::Proto,
            r matches Err(e) ==> s@ != proto_text() && (e matches Error::UnsupportedIdl(t) && t@ == s@),
    {
        proof {
            reveal_strlit("proto");
            assert("proto"@ =~= proto_text());
        }
        if str_eq(s, "proto") {
            Ok(Idl::Proto)
        } else {
            Err(Error::UnsupportedIdl(s.to_owned()))
        }
    }

    /// The name of the IDL as written in configuration.
    pub fn as_config(&self) -> (r: String)
        ensures
            r@ == proto_text(),
    {
        proof {
            reveal_strlit("proto");
        }
        match self {
            Idl::Proto => "proto".to_owned(),
        }
    }
}

/// A language that protoc generates code for.
#[derive(Clone, Copy, Debug, PartialEq, Eq, Structural)]
pub enum Lang {
    Unsupported,
    Cpp,
    CSharp,
    Java,
    Javascript,
    Kotlin,
    ObjectiveC,
    Php,
    Python,
    Ruby,
    Rust,
}

/// The name of a language as written in configuration, which is also the name protoc
/// gives its output option (`--NAME_out`).
pub open spec fn lang_config_name(l: Lang) -> Seq<char> {
    match l {
        Lang::Unsupported => unsupported_text(),
        Lang::Cpp => seq!['c', 'p', 'p'],
        Lang::CSharp => csharp_text(),
        Lang::Java => seq!['j', 'a', 'v', 'a'],
        Lang::Javascript => seq!['j', 's'],
        Lang::Kotlin => seq!['k', 'o', 't', 'l', 'i', 'n'],
        Lang::ObjectiveC => seq!['o', 'b', 'j', 'c'],
        Lang::Php => seq!['p', 'h', 'p'],
        Lang::Python => seq!['p', 'y', 't', 'h', 'o', 'n'],
        Lang::Ruby => seq!['r', 'u', 'b', 'y'],
        Lang::Rust => seq!['r', 'u', 's', 't'],
    }
}

/// The supported language whose configuration name is `name`, if any.
pub open spec fn lang_named(name: Seq<char>) -> Option<Lang> {
    if name == lang_config_name(Lang::Cpp) {
        Some(Lang::Cpp)
    } else if name == lang_config_name(Lang::CSharp) {
        Some(Lang::CSharp)
    } else if name == lang_config_name(Lang::Java) {
        Some(Lang::Java)
    } else if name == lang_config_name(Lang::Javascript) {
        Some(Lang::Javascript)
    } else if name == lang_config_name(Lang::Kotlin) {
        Some(Lang::Kotlin)
    } else if name == lang_config_name(Lang::ObjectiveC) {
        Some(Lang::ObjectiveC)
    } else if name == lang_config_name(Lang::Php) {
        Some(Lang::Php)
    } else if name == lang_config_name(Lang::Python) {
        Some(Lang::Python)
    } else if name == lang_config_name(Lang::Ruby) {
        Some(Lang::Ruby)
    } else if name == lang_config_name(Lang::Rust) {
        Some(Lang::Rust)
    } else {
        None
    }
}

impl Lang {
    /// The language used when none is given.
    pub fn default() -> (r: Self)
        ensures
            r == Lang::Unsupported,
    {
        Lang::Unsupported
    }

    /// The language named by `s`, in any letter case: one of the supported languages'
    /// configuration names.
    pub fn from_str(s: &str) -> (r: Result<Self, Error>)
        ensures
            r matches Ok(lang) ==> lang_named(lower_word(s@)) == Some(lang),
            r matches Err(e) ==> lang_named(lower_word(s@)) is None && (e matches Error::UnsupportedLang(t) && t@ == s@),
    {
        let lowered = to_ascii_lower(s);
        let l = lowered.as_str();
        proof {
            reveal_strlit("cpp");
            reveal_strlit("csharp");
            reveal_strlit("java");
            reveal_strlit("js");
            reveal_strlit("kotlin");
            reveal_strlit("objc");
            reveal_strlit("php");
            reveal_strlit("python");
            reveal_strlit("ruby");
            reveal_strlit("rust");
            assert("cpp"@ =~= lang_config_name(Lang::Cpp));
            assert("csharp"@ =~= lang_config_name(Lang::CSharp));
            assert("java"@ =~= lang_config_name(Lang::Java));
            assert("js"@ =~= lang_config_name(Lang::Javascript));
            assert("kotlin"@ =~= lang_config_name(Lang::Kotlin));
            assert("objc"@ =~= lang_config_name(Lang::ObjectiveC));
            assert("php"@ =~= lang_config_name(Lang::Php));
            assert("python"@ =~= lang_config_name(Lang::Python));
            assert("ruby"@ =~= lang_config_name(Lang::Ruby));
            assert("rust"@ =~= lang_config_name(Lang::Rust));
        }
        if str_eq(l, "cpp") {
            Ok(Lang::Cpp)
        } else if str_eq(l, "csharp") {
            Ok(Lang::CSharp)
        } else if str_eq(l, "java") {
            Ok(Lang::Java)
        } else if str_eq(l, "js") {
            Ok(Lang::Javascript)
        } else if str_eq(l, "kotlin") {
            Ok(Lang::Kotlin)
        } else if str_eq(l, "objc") {
            Ok(Lang::ObjectiveC)
        } else if str_eq(l, "php") {
            Ok(Lang::Php)
        } else if str_eq(l, "python") {
            Ok(Lang::Python)
        } else if str_eq(l, "ruby") {
            Ok(Lang::Ruby)
        } else if str_eq(l, "rust") {
            Ok(Lang::Rust)
        } else {
            Err(Error::UnsupportedLang(s.to_owned()))
        }
    }

    /// The name of the language as written in configuration.
    pub fn as_config(&self) -> (r: String)
        ensures
            r@ == lang_config_name(*self),
    {
        proof {
            reveal_strlit("unsupported");
            reveal_strlit("cpp");
            reveal_strlit("csharp");
            reveal_strlit("java");
            reveal_strlit("js");
            reveal_strlit("kotlin");
            reveal_strlit("objc");
            reveal_strlit("php");
            reveal_strlit("python");
            reveal_strlit("ruby");
            reveal_strlit("rust");
        }
        match self {
            Lang::Unsupported => "unsupported".to_owned(),
            Lang::Cpp => "cpp".to_owned(),
            Lang::CSharp => "csharp".to_owned(),
            Lang::Java => "java".to_owned(),
            Lang::Javascript => "js".to_owned(),
            Lang::Kotlin => "kotlin".to_owned(),
            Lang::ObjectiveC => "objc".to_owned(),
            Lang::Php => "php".to_owned(),
            Lang::Python => "python".to_owned(),
            Lang::Ruby => "ruby".to_owned(),
            Lang::Rust => "rust".to_owned(),
        }
    }
}

/// Each supported language is named by its configuration name.
pub proof fn lemma_lang_named_config_name(l: Lang)
    requires
        l != Lang::Unsupported,
    ensures
        lang_named(lang_config_name(l)) == Some(l),
{
}

/// Separates a language from its output in a `LANG=OUTPUT` value.
pub const OUTPUT_SEPARATOR: char = '=';

/// `path` as an output path: itself when absolute, below the output root when one is
/// given, below the working directory otherwise.
pub open spec fn output_path(output_root: Option<Seq<char>>, working_dir: Seq<char>, path: Seq<char>) -> Seq<char> {
    if is_absolute(path) {
        path
    } else {
        match output_root {
            None => joined(working_dir, path),
            Some(root) => joined(root, path),
        }
    }
}

/// `default_prefix` and `config` joined by `_`.
pub open spec fn default_output_text(config: Seq<char>, default_prefix: Seq<char>) -> Seq<char> {
    default_prefix + seq!['_'] + config
}

/// A protoc output language with the directory its code goes to.
pub struct LangOption {
    pub lang: Lang,
    pub output: String,
}

/// The default output directory of `config`: `default_prefix` and `config` joined by `_`.
pub fn default_output(config: &str, default_prefix: &str) -> (r: String)
    ensures
        r@ == default_output_text(config@, default_prefix@),
{
    let mut r = default_prefix.to_owned();
    r.append("_");
    proof {
        reveal_strlit("_");
    }
    r.append(config);
    r
}

fn parse_output_path(output_root: Option<&str>, working_dir: &str, path: &str) -> (r: String)
    ensures
        r@ == output_path(match output_root { None => None, Some(p) => Some(p@) }, working_dir@, path@),
{
    let v = chars_of(path);
    if v.len() > 0 && v[0] == '/' {
        return path.to_owned();
    }
    match output_root {
        None => crate::paths::join_path(working_dir, path),
        Some(root) => crate::paths::join_path(root, path),
    }
}

impl LangOption {
    /// Reads `LANG` or `LANG=OUTPUT`. Without an output the directory is the default
    /// prefix and the language joined by `_`; a relative output is taken below
    /// `output_root`, or below `working_dir` when there is none.
    pub fn from_config(config: &str, output_root: Option<&str>, default_output_prefix: &str, working_dir: &str) -> (r: Result<Self, Error>)
        ensures
            ({
                let (lang, path) = match first_index(config@, '=') {
                    None => (config@, default_output_text(config@, default_output_prefix@)),
                    Some(i) => (config@.take(i), config@.skip(i + 1)),
                };
                &&& r is Ok <==> lang_named(lower_word(lang)) is Some
                &&& r matches Ok(o) ==> Some(o.lang) == lang_named(lower_word(lang))
                    && o.output@ == output_path(match output_root { None => None, Some(p) => Some(p@) }, working_dir@, path)
                &&& r matches Err(e) ==> (e matches Error::UnsupportedLang(t) && t@ == lang)
            }),
    {
        let v = chars_of(config);
        let (lang, path) = match find_char(&v, OUTPUT_SEPARATOR) {
            None => (config.to_owned(), default_output(config, default_output_prefix)),
            Some(i) => {
                let lang = string_from_range(&v, 0, i);
                let path = string_from_range(&v, i + 1, v.len());
                assert(v@.subrange(0, i as int) =~= v@.take(i as int));
                assert(v@.subrange(i + 1, v@.len() as int) =~= v@.skip(i + 1));
                (lang, path)
            },
        };
        let lang = Lang::from_str(lang.as_str())?;
        Ok(LangOption { lang, output: parse_output_path(output_root, working_dir, path.as_str()) })
    }
}

/// A protoc output language and its output directory.
pub struct LangConfig {
    pub lang: Lang,
    pub output: String,
}

/// The absolute form of `path`, below `root` when relative.
pub open spec fn absolute_under(path: Seq<char>, root: Seq<char>) -> Seq<char> {
    if is_absolute(path) { path } else { joined(root, path) }
}

/// Whether `path` can be made absolute with `root`.
pub open spec fn resolvable(path: Seq<char>, root: Option<Seq<char>>) -> bool {
    is_absolute(path) || root is Some
}

/// The text an optional string slice holds.
pub open spec fn opt_view(o: Option<&str>) -> Option<Seq<char>> {
    match o {
        None => None,
        Some(s) => Some(s@),
    }
}

impl LangConfig {
    /// The language named by `lang` with its output directory; a relative output is
    /// taken below `output_root`.
    pub fn from_config(lang: &str, output: &str, output_root: Option<&str>) -> (r: Result<Self, Error>)
        ensures
            r is Ok <==> resolvable(output@, opt_view(output_root)) && lang_named(lower_word(lang@)) is Some,
            r matches Ok(c) ==> Some(c.lang) == lang_named(lower_word(lang@)) && c.output@ == absolute_under(output@, opt_view(output_root).unwrap_or(Seq::empty())),
            r matches Err(e) ==> if !resolvable(output@, opt_view(output_root)) {
                e matches Error::RelativePathWithoutRoot(s) && s@ == output@
            } else {
                e matches Error::UnsupportedLang(s) && s@ == lang@
            },
    {
        let output_path = path_as_absolute(output, output_root)?;
        let lang = Lang::from_str(lang)?;
        Ok(LangConfig { lang, output: output_path })
    }
}

/// A renderer's input directory, output directory and overlay files.
pub struct InOutConfig {
    pub input: String,
    pub output: String,
    pub overlays: Vec<String>,
}

impl InOutConfig {
    /// Input and output directories made absolute with their roots, without overlays.
    pub fn from_config(input: &str, output: &str, input_root: Option<&str>, output_root: Option<&str>) -> (r: Result<Self, Error>)
        ensures
            r is Ok <==> resolvable(input@, opt_view(input_root)) && resolvable(output@, opt_view(output_root)),
            r matches Ok(c) ==> c.input@ == absolute_under(input@, opt_view(input_root).unwrap_or(Seq::empty()))
                && c.output@ == absolute_under(output@, opt_view(output_root).unwrap_or(Seq::empty()))
                && c.overlays@.len() == 0,
            r matches Err(e) ==> if !resolvable(input@, opt_view(input_root)) {
                e matches Error::RelativePathWithoutRoot(s) && s@ == input@
            } else {
                e matches Error::RelativePathWithoutRoot(s) && s@ == output@
            },
    {
        Ok(InOutConfig {
            input: path_as_absolute(input, input_root)?,
            output: path_as_absolute(output, output_root)?,
            overlays: Vec::new(),
        })
    }
}

/// A text file to encode as a protobuf message, and where the result goes.
pub struct EncodeConfig {
    pub target: String,
    pub message_type: String,
    pub output: String,
}

impl EncodeConfig {
    /// The target as given, and the output made absolute with the output root.
    pub fn from_config(target: &str, message_type: &str, output: &str, output_root: Option<&str>) -> (r: Result<Self, Error>)
        ensures
            r is Ok <==> resolvable(output@, opt_view(output_root)),
            r matches Ok(c) ==> c.target@ == target@ && c.message_type@ == message_type@
                && c.output@ == absolute_under(output@, opt_view(output_root).unwrap_or(Seq::empty())),
            r matches Err(e) ==> (e matches Error::RelativePathWithoutRoot(s) && s@ == output@),
    {
        Ok(EncodeConfig {
            target: target.to_owned(),
            message_type: message_type.to_owned(),
            output: path_as_absolute(output, output_root)?,
        })
    }
}

/// Where the encoding of a target goes: the target's file stem with the extension `bin`,
/// in the output directory.
pub open spec fn encode_output(target: Seq<char>, output: Seq<char>) -> Seq<char> {
    with_extension(joined(output, stem(file_name(target).unwrap())), "bin"@)
}

/// The file the encoding of `config`'s target is written to.
pub fn encode_output_path(config: &EncodeConfig) -> (r: String)
    requires
        file_name(config.target@) is Some,
    ensures
        r@ == encode_output(config.target@, config.output@),
{
    let name = match path_file_name(config.target.as_str()) {
        Some(n) => n,
        None => String::new(),
    };
    let stem_path = join_path(config.output.as_str(), file_stem_of(name.as_str()).as_str());
    path_with_extension(stem_path.as_str(), "bin")
}

/// A named script set: its input and output directories and overlay files.
pub struct ScriptConfig {
    pub name: String,
    pub input: String,
    pub output: String,
    pub overlays: Vec<String>,
}

/// The overlay paths that can be made absolute with `root`, made so, in order.
pub open spec fn resolved_overlays(overlays: Seq<Seq<char>>, root: Option<Seq<char>>) -> Seq<Seq<char>>
    decreases overlays.len(),
{
    if overlays.len() == 0 {
        overlays
    } else {
        let rest = resolved_overlays(overlays.drop_last(), root);
        let last = overlays.last();
        if resolvable(last, root) {
            rest.push(absolute_under(last, root.unwrap_or(Seq::empty())))
        } else {
            rest
        }
    }
}

impl ScriptConfig {
    /// Input and output directories default to `name`; relative ones are taken below
    /// their roots. Overlays that cannot be made absolute are left out.
    pub fn from_config(
        name: &str,
        script_in: Option<&str>,
        script_out: Option<&str>,
        script_root: Option<&str>,
        output_root: Option<&str>,
        overlays: &Vec<&str>,
    ) -> (r: Result<Self, Error>)
        ensures
            ({
                let input = match script_in { None => name@, Some(s) => s@ };
                let output = match script_out { None => name@, Some(s) => s@ };
                &&& r is Ok <==> resolvable(input, opt_view(script_root)) && resolvable(output, opt_view(output_root))
                &&& r matches Ok(c) ==> c.name@ == name@
                    && c.input@ == absolute_under(input, opt_view(script_root).unwrap_or(Seq::empty()))
                    && c.output@ == absolute_under(output, opt_view(output_root).unwrap_or(Seq::empty()))
                    && c.overlays@.map_values(|s: String| s@) == resolved_overlays(overlays@.map_values(|s: &str| s@), opt_view(script_root))
                &&& r matches Err(e) ==> if !resolvable(input, opt_view(script_root)) {
                    e matches Error::RelativePathWithoutRoot(s) && s@ == input
                } else {
                    e matches Error::RelativePathWithoutRoot(s) && s@ == output
                }
            }),
    {
        let input = path_as_absolute(match script_in { None => name, Some(s) => s }, script_root)?;
        let output = path_as_absolute(match script_out { None => name, Some(s) => s }, output_root)?;
        let ghost ov = overlays@.map_values(|s: &str| s@);
        let mut resolved: Vec<String> = Vec::new();
        let mut i: usize = 0;
        while i < overlays.len()
            invariant
                i <= overlays.len(),
                ov == overlays@.map_values(|s: &str| s@),
                resolved@.map_values(|s: String| s@) == resolved_overlays(ov.take(i as int), opt_view(script_root)),
            decreases overlays.len() - i,
        {
            assert(ov.take(i + 1).drop_last() =~= ov.take(i as int));
            match path_as_absolute(overlays[i], script_root) {
                Ok(p) => {
                    resolved.push(p);
                },
                Err(_) => {},
            }
            assert(resolved@.map_values(|s: String| s@) =~= resolved_overlays(ov.take(i + 1), opt_view(script_root)));
            i = i + 1;
        }
        assert(ov.take(overlays@.len() as int) =~= ov);
        Ok(ScriptConfig { name: name.to_owned(), input, output, overlays: resolved })
    }

    /// The input, output and overlays of this script set.
    pub fn to_in_out(&self) -> (r: InOutConfig)
        ensures
            r.input@ == self.input@,
            r.output@ == self.output@,
            r.overlays@.map_values(|s: String| s@) == self.overlays@.map_values(|s: String| s@),
    {
        let mut overlays: Vec<String> = Vec::new();
        let mut i: usize = 0;
        while i < self.overlays.len()
            invariant
                i <= self.overlays.len(),
                overlays@.len() == i,
                forall|k: int| 0 <= k < i ==> #[trigger] overlays@[k]@ == self.overlays@[k]@,
            decreases self.overlays.len() - i,
        {
            overlays.push(self.overlays[i].clone());
            i = i + 1;
        }
        assert(overlays@.map_values(|s: String| s@) =~= self.overlays@.map_values(|s: String| s@));
        InOutConfig { input: self.input.clone(), output: self.output.clone(), overlays }
    }
}


/// The command line settings of the protoc runner.
pub struct Options {
    pub idl: Idl,
    /// The directory searched for input files.
    pub input: String,
    /// The directory relative outputs are placed under.
    pub output_root: Option<String>,
}

impl Options {
    /// The proto IDL, an empty input path and no output root.
    pub fn default() -> (r: Self)
        ensures
            r.idl == Idl::Proto,
            r.input@.len() == 0,
            r.output_root is None,
    {
        Options { idl: Idl::Proto, input: String::new(), output_root: None }
    }

    /// The settings from the values given on the command line: the IDL (which has a
    /// default), the required input directory and the optional output root.
    pub fn from_cli(idl: Option<&str>, input: Option<&str>, output_root: Option<&str>) -> (r: Result<Self, Error>)
        ensures
            r is Ok <==> (idl matches Some(i) && i@ == proto_text() && input is Some),
            r matches Ok(o) ==> o.idl == Idl::Proto && o.input@ == input.unwrap()@
                && crate::text::opt_text(o.output_root) == opt_view(output_root),
            r matches Err(e) ==> (match idl {
                None => e matches Error::Missing(_),
                Some(i) => if i@ != proto_text() {
                    e matches Error::UnsupportedIdl(t) && t@ == i@
                } else {
                    e matches Error::Missing(_)
                },
            }),
    {
        let idl = match idl {
            None => return Err(Error::Missing("IDL missing default value.".to_owned())),
            Some(i) => match Idl::from_str(i) {
                Ok(idl) => idl,
                Err(e) => return Err(e),
            },
        };
        let input = match input {
            None => return Err(Error::Missing("Missing required argument '--input'".to_owned())),
            Some(i) => i.to_owned(),
        };
        let output_root = match output_root {
            None => None,
            Some(root) => Some(root.to_owned()),
        };
        Ok(Options { idl, input, output_root })
    }
}

} // verus!
