//! What a renderer is told of a proto file.
use vstd::prelude::*;
use crate::config::RendererConfig;
use crate::context::enums::{enum_model, EnumContext, EnumModel};
use crate::context::import::{import_model, ImportContext, ImportModel};
use crate::context::message::{message_model, MessageContext, MessageModel};
use crate::descriptor::{same_file_options, FileDescriptor, FileOptions};
use crate::error::Error;
use crate::text::{contains_str, opt_text, views};
use crate::type_path::{package_components, TypePath, TypePathModel};

verus! {

/// What a `FileContext` holds, but for its options.
pub struct FileModel {
    pub source_file: Seq<char>,
    pub package: Seq<char>,
    pub imports: Seq<ImportModel>,
    pub enums: Seq<EnumModel>,
    pub messages: Seq<MessageModel>,
}

/// The package as written: components in package case joined by the configured
/// separator; empty without a package.
pub open spec fn package_text(package: Option<String>, config: RendererConfig) -> Seq<char> {
    match package {
        None => Seq::<char>::empty(),
        Some(p) => TypePathModel {
            components: package_components(p@),
            simple_name: None,
            separator: config.package_separator@,
            type_name_case: None,
            package_case: Some(config.case_config.package),
        }.text(),
    }
}

/// The imports of `deps` that are not in `ignored`, in order.
pub open spec fn kept_imports(deps: Seq<Seq<char>>, ignored: Seq<Seq<char>>) -> Seq<Seq<char>>
    decreases deps.len(),
{
    if deps.len() == 0 {
        Seq::<Seq<char>>::empty()
    } else {
        let rest = kept_imports(deps.drop_last(), ignored);
        if ignored.contains(deps.last()) {
            rest
        } else {
            rest.push(deps.last())
        }
    }
}

/// Whether each import that is not ignored has a context.
pub open spec fn imports_ok(deps: Seq<Seq<char>>, ignored: Seq<Seq<char>>) -> bool {
    forall|j: int| 0 <= j < deps.len() && !ignored.contains(deps[j]) ==> (#[trigger] import_model(deps[j])) is Some
}

/// What the context of `file` holds; none when the file has no name or an import, an
/// enum or a message has no context.
#[verifier::opaque]
pub open spec fn file_model(file: FileDescriptor, config: RendererConfig) -> Option<FileModel> {
    let deps = views(file.dependency@);
    let ignored = views(config.ignored_imports@);
    let package = opt_text(file.package);
    match file.name {
        None => None,
        Some(n) => if imports_ok(deps, ignored)
            && (forall|j: int| 0 <= j < file.enum_type@.len() ==> (#[trigger] enum_model(file.enum_type@[j], config)) is Some)
            && (forall|j: int| 0 <= j < file.message_type@.len() ==> (#[trigger] message_model(file.message_type@[j], package, config)) is Some) {
            Some(FileModel {
                source_file: n@,
                package: package_text(file.package, config),
                imports: kept_imports(deps, ignored).map_values(|d: Seq<char>| import_model(d).unwrap()),
                enums: file.enum_type@.map_values(|e| enum_model(e, config).unwrap()),
                messages: file.message_type@.map_values(|m| message_model(m, package, config).unwrap()),
            })
        } else {
            None
        },
    }
}

/// Whether two optional file options hold the same values.
pub open spec fn same_opt_file_options(a: Option<FileOptions>, b: Option<FileOptions>) -> bool {
    match (a, b) {
        (None, None) => true,
        (Some(x), Some(y)) => same_file_options(x, y),
        _ => false,
    }
}

/// What a renderer is told of a proto file.
#[derive(Clone)]
pub struct FileContext {
    source_file: String,
    package: String,
    imports: Vec<ImportContext>,
    enums: Vec<EnumContext>,
    messages: Vec<MessageContext>,
    options: Option<FileOptions>,
}

impl View for FileContext {
    type V = FileModel;

    closed spec fn view(&self) -> FileModel {
        FileModel {
            source_file: self.source_file@,
            package: self.package@,
            imports: self.imports@.map_values(|i: ImportContext| i@),
            enums: self.enums@.map_values(|e: EnumContext| e@),
            messages: self.messages@.map_values(|m: MessageContext| m@),
        }
    }
}

/// The package as written.
fn package(file: &FileDescriptor, config: &RendererConfig) -> (r: String)
    ensures
        r@ == package_text(file.package, *config),
{
    match &file.package {
        None => String::new(),
        Some(p) => {
            let mut path = TypePath::from_package(p.as_str());
            path.set_separator(config.package_separator.as_str());
            path.set_package_case(Some(config.case_config.package));
            path.to_string()
        },
    }
}

/// The contexts of the imports that are not ignored.
fn imports(deps: &Vec<String>, ignored: &Vec<String>) -> (r: Result<Vec<ImportContext>, Error>)
    ensures
        r is Ok <==> imports_ok(views(deps@), views(ignored@)),
        r matches Ok(v) ==> v@.map_values(|i: ImportContext| i@)
            == kept_imports(views(deps@), views(ignored@)).map_values(|d: Seq<char>| import_model(d).unwrap()),
{
    let ghost ig = views(ignored@);
    let mut result: Vec<ImportContext> = Vec::new();
    let mut i: usize = 0;
    assert(views(deps@).take(0) =~= Seq::<Seq<char>>::empty());
    while i < deps.len()
        invariant
            i <= deps@.len(),
            ig == views(ignored@),
            forall|j: int| 0 <= j < i && !ig.contains(views(deps@)[j]) ==> (#[trigger] import_model(views(deps@)[j])) is Some,
            result@.map_values(|c: ImportContext| c@)
                == kept_imports(views(deps@).take(i as int), ig).map_values(|d: Seq<char>| import_model(d).unwrap()),
        decreases deps.len() - i,
    {
        let ghost before = result@.map_values(|c: ImportContext| c@);
        assert(views(deps@).take(i + 1).drop_last() =~= views(deps@).take(i as int));
        assert(views(deps@).take(i + 1).last() == deps@[i as int]@);
        let skip = contains_str(ignored, deps[i].as_str());
        assert(skip == ig.contains(views(deps@)[i as int]));
        if !skip {
            assert(kept_imports(views(deps@).take(i + 1), ig)
                == kept_imports(views(deps@).take(i as int), ig).push(deps@[i as int]@));
            let c = match ImportContext::new(deps[i].as_str()) {
                Ok(c) => c,
                Err(e) => {
                    assert(!imports_ok(views(deps@), ig)) by {
                        assert(import_model(views(deps@)[i as int]) is None);
                    }
                    return Err(e);
                },
            };
            let ghost cv = c@;
            assert(Some(cv) == import_model(deps@[i as int]@));
            result.push(c);
            assert(result@.map_values(|c: ImportContext| c@) =~= before.push(cv));
            let ghost kept = kept_imports(views(deps@).take(i as int), ig);
            assert(kept.push(deps@[i as int]@).map_values(|d: Seq<char>| import_model(d).unwrap())
                =~= kept.map_values(|d: Seq<char>| import_model(d).unwrap()).push(cv));
            assert(result@.map_values(|c: ImportContext| c@)
                =~= kept_imports(views(deps@).take(i + 1), ig).map_values(|d: Seq<char>| import_model(d).unwrap()));
        } else {
            assert(kept_imports(views(deps@).take(i + 1), ig) == kept_imports(views(deps@).take(i as int), ig));
            assert(result@.map_values(|c: ImportContext| c@)
                =~= kept_imports(views(deps@).take(i + 1), ig).map_values(|d: Seq<char>| import_model(d).unwrap()));
        }
        i = i + 1;
    }
    assert(views(deps@).take(deps@.len() as int) =~= views(deps@));
    Ok(result)
}

fn clone_opt_file_options(o: &Option<FileOptions>) -> (r: Option<FileOptions>)
    ensures
        same_opt_file_options(r, *o),
{
    match o {
        None => None,
        Some(o) => Some(o.clone()),
    }
}

impl FileContext {
    /// The context of `file`: its path, its package as written, its imports that are not
    /// ignored, its enums and its messages. An error when the file has no name or an
    /// import, an enum or a message has no context.
    #[verifier::loop_isolation(false)]
    pub fn new(file: &FileDescriptor, config: &RendererConfig) -> (r: Result<FileContext, Error>)
        ensures
            r is Ok <==> file_model(*file, *config) is Some,
            r matches Ok(c) ==> Some(c@) == file_model(*file, *config)
                && same_opt_file_options(c.options_view(), file.options),
            file.name is None ==> (r matches Err(e) && e matches Error::Missing(_)),
    {
        proof {
            reveal(file_model);
        }
        let source_file = match &file.name {
            Some(n) => n.clone(),
            None => return Err(Error::Missing("File has no 'name'".to_owned())),
        };
        let package_text = package(file, config);
        let imports = match imports(&file.dependency, &config.ignored_imports) {
            Ok(i) => i,
            Err(e) => return Err(e),
        };
        let mut enums: Vec<EnumContext> = Vec::new();
        let mut i: usize = 0;
        while i < file.enum_type.len()
            invariant
                i <= file.enum_type@.len(),
                enums@.len() == i,
                forall|j: int| 0 <= j < i ==> (#[trigger] enum_model(file.enum_type@[j], *config)) is Some
                    && Some(enums@[j]@) == enum_model(file.enum_type@[j], *config),
            decreases file.enum_type.len() - i,
        {
            let e = match EnumContext::new(&file.enum_type[i], config) {
                Ok(e) => e,
                Err(err) => {
                    assert(enum_model(file.enum_type@[i as int], *config) is None);
                    return Err(err);
                },
            };
            enums.push(e);
            i = i + 1;
        }
        let package_arg = match &file.package {
            None => None,
            Some(p) => Some(p.as_str()),
        };
        let ghost pkg = opt_text(file.package);
        assert(crate::text::opt_str(package_arg) == pkg);
        let mut messages: Vec<MessageContext> = Vec::new();
        let mut i: usize = 0;
        while i < file.message_type.len()
            invariant
                i <= file.message_type@.len(),
                crate::text::opt_str(package_arg) == pkg,
                messages@.len() == i,
                forall|j: int| 0 <= j < i ==> (#[trigger] message_model(file.message_type@[j], pkg, *config)) is Some
                    && Some(messages@[j]@) == message_model(file.message_type@[j], pkg, *config),
            decreases file.message_type.len() - i,
        {
            let m = match MessageContext::new(&file.message_type[i], package_arg, config) {
                Ok(m) => m,
                Err(err) => {
                    assert(message_model(file.message_type@[i as int], pkg, *config) is None);
                    return Err(err);
                },
            };
            messages.push(m);
            i = i + 1;
        }
        let c = FileContext {
            source_file,
            package: package_text,
            imports,
            enums,
            messages,
            options: clone_opt_file_options(&file.options),
        };
        assert(c@.enums =~= file.enum_type@.map_values(|e| enum_model(e, *config).unwrap()));
        assert(c@.messages =~= file.message_type@.map_values(|m| message_model(m, pkg, *config).unwrap()));
        Ok(c)
    }

    /// The options of the file.
    pub closed spec fn options_view(&self) -> Option<FileOptions> {
        self.options
    }

    /// The path of the proto file, relative to the input root.
    pub fn source_file(&self) -> (r: &str)
        ensures
            r@ == self@.source_file,
    {
        self.source_file.as_str()
    }

    /// The file's package as written.
    pub fn package(&self) -> (r: &str)
        ensures
            r@ == self@.package,
    {
        self.package.as_str()
    }

    /// The contexts of the file's imports that are not ignored.
    pub fn imports(&self) -> (r: &Vec<ImportContext>)
        ensures
            r@.map_values(|i: ImportContext| i@) == self@.imports,
    {
        &self.imports
    }

    /// The contexts of the file's enums.
    pub fn enums(&self) -> (r: &Vec<EnumContext>)
        ensures
            r@.map_values(|e: EnumContext| e@) == self@.enums,
    {
        &self.enums
    }

    /// The contexts of the file's messages.
    pub fn messages(&self) -> (r: &Vec<MessageContext>)
        ensures
            r@.map_values(|m: MessageContext| m@) == self@.messages,
    {
        &self.messages
    }

    /// The file's options.
    pub fn options(&self) -> (r: &Option<FileOptions>)
        ensures
            *r == self.options_view(),
    {
        &self.options
    }
}

} // verus!
