//! What a renderer writes where: output file names and paths, the header of each
//! output file, which proto files are skipped, how files are grouped when one file is
//! written per package, and the directories that get a metadata file.
use vstd::prelude::*;
use crate::case::Case;
use crate::config::RendererConfig;
use crate::descriptor::FileDescriptor;
use crate::dir_init::TEMPLATE_EXT;
use crate::error::Error;
use crate::metadata::{
    child_names, child_stems, children_ok, is_direct_child_spec, is_subdirectory_spec, subdirectories_ok,
    subdirectory_names, MetadataContext,
};
use crate::paths::{
    lemma_parent_shorter, lemma_trimmed_prefix, parent, path_parent,
    dir_prefix, dotted_extension, dotted_extension_of, extension, file_name, file_stem_of, joined, join_path,
    path_extension, path_file_name, path_with_extension, split_last, stem, trimmed, trimmed_path, with_extension,
};
use crate::text::{
    chars_of, contains_str, join, join_spec, push_char, replace_all, replace_spec, str_eq, string_from_range, views,
};
use crate::util::{proto_ext_full, proto_ext_raw, replace_proto_ext, str_or_error};

verus! {

/// The header written at the top of each output file unless one is configured.
pub const DEFAULT_GENERATED_HEADER: &'static str = "/////////////////////////////////////////////////////\n// *** DO NOT EDIT MANUALLY ***\n// This file is generated by the utility `protox`.\n/////////////////////////////////////////////////////\n\n";

/// The format a renderer config file is written in.
#[derive(Clone, Copy, Debug, PartialEq, Eq, Structural)]
pub enum ConfigFormat {
    Json,
    Yaml,
}

/// The format of the renderer config file at `path`, read from its extension: `json`,
/// or `yaml` and `yml`. A file without an extension, or with another one, is refused.
pub fn config_format(path: &str) -> (r: Result<ConfigFormat, Error>)
    ensures
        match extension(path@) {
            None => r matches Err(Error::Missing(_)),
            Some(ext) => if ext == "json"@ {
                r == Ok::<ConfigFormat, Error>(ConfigFormat::Json)
            } else if ext == "yaml"@ || ext == "yml"@ {
                r == Ok::<ConfigFormat, Error>(ConfigFormat::Yaml)
            } else {
                r matches Err(Error::UnsupportedConfigType(e)) && e@ == ext
            },
        },
{
    match path_extension(path) {
        None => Err(Error::Missing("Config file must have an extension.".to_owned())),
        Some(ext) => {
            if str_eq(ext.as_str(), "json") {
                Ok(ConfigFormat::Json)
            } else if str_eq(ext.as_str(), "yaml") || str_eq(ext.as_str(), "yml") {
                Ok(ConfigFormat::Yaml)
            } else {
                Err(Error::UnsupportedConfigType(ext))
            }
        },
    }
}

/// The name a template file is registered under: its file stem, for a file with the
/// template extension; any other file is no template.
pub fn template_name(path: &str) -> (r: Option<String>)
    ensures
        match extension(path@) {
            Some(ext) => if ext == TEMPLATE_EXT@ {
                r matches Some(n) && n@ == stem(file_name(path@).unwrap())
            } else {
                r is None
            },
            None => r is None,
        },
{
    match path_extension(path) {
        None => None,
        Some(ext) => {
            if !str_eq(ext.as_str(), TEMPLATE_EXT) {
                return None;
            }
            match path_file_name(path) {
                Some(name) => Some(file_stem_of(name.as_str())),
                None => None,
            }
        },
    }
}

/// The header of each output file: the configured lines, each ended by a newline;
/// nothing for an empty list; the built-in header when none is configured.
pub open spec fn header_text(header: Option<Seq<Seq<char>>>) -> Seq<char> {
    match header {
        None => DEFAULT_GENERATED_HEADER@,
        Some(lines) => if lines.len() == 0 {
            Seq::<char>::empty()
        } else {
            join_spec(lines, seq!['\n']) + seq!['\n']
        },
    }
}

/// The configured header lines, as text.
pub open spec fn header_lines(config: RendererConfig) -> Option<Seq<Seq<char>>> {
    match config.generated_header {
        None => None,
        Some(lines) => Some(views(lines@)),
    }
}

/// The header written at the top of each output file.
pub fn generated_header(config: &RendererConfig) -> (r: String)
    ensures
        r@ == header_text(header_lines(*config)),
{
    match &config.generated_header {
        None => DEFAULT_GENERATED_HEADER.to_owned(),
        Some(lines) => {
            if lines.len() == 0 {
                String::new()
            } else {
                let mut header = join(lines, "\n");
                push_char(&mut header, '\n');
                proof {
                    reveal_strlit("\n");
                    assert("\n"@ =~= seq!['\n']);
                }
                header
            }
        },
    }
}

/// The name of the output file for a proto file: its path with the proto extension
/// replaced by `new_ext`.
pub fn output_file_name(file: &FileDescriptor, new_ext: &str) -> (r: Result<String, Error>)
    ensures
        r is Ok <==> file.name is Some,
        r matches Ok(n) ==> n@ == (if new_ext@.len() > 0 && new_ext@[0] == '.' {
            replace_spec(file.name.unwrap()@, proto_ext_full(), new_ext@)
        } else {
            replace_spec(file.name.unwrap()@, proto_ext_raw(), new_ext@)
        }),
        r matches Err(e) ==> e matches Error::Missing(_),
{
    let name = match str_or_error(
        &file.name,
        "Descriptor set file is missing a file name. The descriptor set was probably generated incorrectly.",
    ) {
        Ok(n) => n,
        Err(e) => return Err(e),
    };
    Ok(replace_proto_ext(name, new_ext))
}

/// The package a file is grouped under: its own, or `default` without one.
pub open spec fn package_name(file: FileDescriptor, default: Seq<char>) -> Seq<char> {
    match file.package {
        Some(p) => p@,
        None => default,
    }
}

/// The package a file is grouped under: its own, or `default` without one.
pub fn package_of<'a>(file: &'a FileDescriptor, default: &'a str) -> (r: &'a str)
    ensures
        r@ == package_name(*file, default@),
{
    match &file.package {
        Some(p) => p.as_str(),
        None => default,
    }
}

/// Whether a proto file gets no output: it has no name, or its name is ignored.
pub open spec fn is_ignored_spec(config: RendererConfig, file: FileDescriptor) -> bool {
    match file.name {
        None => true,
        Some(n) => views(config.ignored_files@).contains(n@),
    }
}

/// Whether a proto file gets no output: it has no name, or its name is ignored.
pub fn is_ignored_file(config: &RendererConfig, file: &FileDescriptor) -> (r: bool)
    ensures
        r == is_ignored_spec(*config, *file),
{
    match &file.name {
        None => true,
        Some(n) => contains_str(&config.ignored_files, n.as_str()),
    }
}

/// The first group of `groups` with key `key`.
pub open spec fn group_of(groups: Seq<(Seq<char>, Seq<int>)>, key: Seq<char>) -> Option<int>
    decreases groups.len(),
{
    if groups.len() == 0 {
        None
    } else if groups[0].0 == key {
        Some(0)
    } else {
        match group_of(groups.skip(1), key) {
            None => None,
            Some(i) => Some(i + 1),
        }
    }
}

/// The indices of `keys` grouped by key: groups in the order their keys first occur,
/// each holding its indices in increasing order.
pub open spec fn grouped(keys: Seq<Seq<char>>) -> Seq<(Seq<char>, Seq<int>)>
    decreases keys.len(),
{
    if keys.len() == 0 {
        Seq::<(Seq<char>, Seq<int>)>::empty()
    } else {
        let g = grouped(keys.drop_last());
        let j = keys.len() - 1;
        let k = keys.last();
        match group_of(g, k) {
            Some(i) => g.update(i, (k, g[i].1.push(j))),
            None => g.push((k, seq![j])),
        }
    }
}

/// Groups of file indices, as text and integers.
pub open spec fn groups_view(v: Seq<(String, Vec<usize>)>) -> Seq<(Seq<char>, Seq<int>)> {
    v.map_values(|g: (String, Vec<usize>)| (g.0@, g.1@.map_values(|u: usize| u as int)))
}

/// The packages of `files`, with `default` for those without one.
pub open spec fn packages_of(files: Seq<FileDescriptor>, default: Seq<char>) -> Seq<Seq<char>> {
    files.map_values(|f: FileDescriptor| package_name(f, default))
}

proof fn lemma_group_of_found(groups: Seq<(Seq<char>, Seq<int>)>, i: int, key: Seq<char>)
    requires
        0 <= i < groups.len(),
        groups[i].0 == key,
        forall|j: int| 0 <= j < i ==> groups[j].0 != key,
    ensures
        group_of(groups, key) == Some(i),
    decreases i,
{
    if i > 0 {
        lemma_group_of_found(groups.skip(1), i - 1, key);
    }
}

proof fn lemma_group_of_none(groups: Seq<(Seq<char>, Seq<int>)>, key: Seq<char>)
    requires
        forall|j: int| 0 <= j < groups.len() ==> groups[j].0 != key,
    ensures
        group_of(groups, key) is None,
    decreases groups.len(),
{
    if groups.len() > 0 {
        lemma_group_of_none(groups.skip(1), key);
    }
}

/// The first group with key `key`.
fn find_group(r: &Vec<(String, Vec<usize>)>, key: &str) -> (found: Option<usize>)
    ensures
        found matches Some(g) ==> g < r@.len() && r@[g as int].0@ == key@
            && (forall|j: int| 0 <= j < g ==> r@[j].0@ != key@),
        found is None ==> forall|j: int| 0 <= j < r@.len() ==> r@[j].0@ != key@,
{
    let mut g: usize = 0;
    while g < r.len()
        invariant
            g <= r@.len(),
            forall|j: int| 0 <= j < g ==> r@[j].0@ != key@,
        decreases r.len() - g,
    {
        if str_eq(r[g].0.as_str(), key) {
            return Some(g);
        }
        g = g + 1;
    }
    None
}

/// The indices of `files` grouped by package, groups in the order their packages first
/// occur; files without a package go under `default`.
pub fn collect_package_to_file_map(files: &Vec<FileDescriptor>, default: &str) -> (r: Vec<(String, Vec<usize>)>)
    ensures
        groups_view(r@) == grouped(packages_of(files@, default@)),
{
    let mut r: Vec<(String, Vec<usize>)> = Vec::new();
    let mut i: usize = 0;
    while i < files.len()
        invariant
            i <= files@.len(),
            groups_view(r@) == grouped(packages_of(files@, default@).take(i as int)),
        decreases files.len() - i,
    {
        let key = package_of(&files[i], default);
        let ghost keys = packages_of(files@, default@).take(i + 1);
        assert(keys.drop_last() =~= packages_of(files@, default@).take(i as int));
        assert(keys.last() == key@);
        let found = find_group(&r, key);
        let ghost before = groups_view(r@);
        match found {
            Some(gi) => {
                proof {
                    assert forall|j: int| 0 <= j < gi implies before[j].0 != key@ by {
                        assert(before[j].0 == r@[j].0@);
                    }
                    lemma_group_of_found(before, gi as int, key@);
                }
                let ghost old_r = r@;
                let (k, mut idxs) = r.remove(gi);
                let ghost old_idxs = idxs@;
                assert(old_idxs.map_values(|u: usize| u as int) == before[gi as int].1);
                idxs.push(i);
                assert(idxs@.map_values(|u: usize| u as int) =~= before[gi as int].1.push(i as int));
                r.insert(gi, (k, idxs));
                assert(r@ =~= old_r.update(gi as int, r@[gi as int]));
                assert(groups_view(r@) =~= before.update(gi as int, (key@, before[gi as int].1.push(i as int))));
            },
            None => {
                proof {
                    assert forall|j: int| 0 <= j < before.len() implies before[j].0 != key@ by {
                        assert(before[j].0 == r@[j].0@);
                    }
                    lemma_group_of_none(before, key@);
                }
                let mut idxs: Vec<usize> = Vec::new();
                idxs.push(i);
                let ghost iv = idxs@.map_values(|u: usize| u as int);
                assert(iv =~= seq![i as int]);
                r.push((key.to_owned(), idxs));
                assert(groups_view(r@) =~= before.push((key@, seq![i as int])));
            },
        }
        i = i + 1;
    }
    assert(packages_of(files@, default@).take(files@.len() as int) =~= packages_of(files@, default@));
    r
}

/// The path of the output file for a package: `root` joined with the package, `.`
/// replaced by `_`, with extension `ext`.
#[verifier::opaque]
pub open spec fn package_file_path(root: Seq<char>, package: Seq<char>, ext: Seq<char>) -> Seq<char> {
    with_extension(joined(root, replace_spec(package, seq!['.'], seq!['_'])), ext)
}

/// The path of the output file for a package.
pub fn package_to_file_path(root: &str, package: &str, ext: &str) -> (r: String)
    ensures
        r@ == package_file_path(root@, package@, ext@),
{
    proof {
        reveal(package_file_path);
        reveal_strlit(".");
        reveal_strlit("_");
        assert("."@ =~= seq!['.']);
        assert("_"@ =~= seq!['_']);
    }
    let name = replace_all(package, ".", "_");
    let path = join_path(root, name.as_str());
    path_with_extension(path.as_str(), ext)
}

/// The path of the metadata file of directory `dir`.
pub open spec fn metadata_path(output: Seq<char>, dir: Seq<char>, name: Seq<char>, ext: Seq<char>) -> Seq<char> {
    with_extension(joined(joined(output, dir), name), ext)
}

/// The path of the metadata file of directory `dir` under `output`.
pub fn metadata_file_path(output: &str, dir: &str, config: &RendererConfig) -> (r: String)
    ensures
        r@ == metadata_path(output@, dir@, config.metadata_file_name@, config.file_extension@),
{
    let base = join_path(output, dir);
    let path = join_path(base.as_str(), config.metadata_file_name.as_str());
    path_with_extension(path.as_str(), config.file_extension.as_str())
}

/// `p` with the name of its file, without extension, written in `case`.
#[verifier::opaque]
pub open spec fn renamed_file_name(case: Case, p: Seq<char>) -> Seq<char> {
    match file_name(p) {
        None => p,
        Some(n) => dir_prefix(trimmed(p)) + case.renamed(stem(n)) + dotted_extension(n),
    }
}

/// `path` with the name of its file, without extension, written in `case`.
pub fn rename_file_name(case: Case, path: &str) -> (r: String)
    ensures
        r@ == renamed_file_name(case, path@),
{
    proof {
        reveal(renamed_file_name);
    }
    let name = match path_file_name(path) {
        None => return path.to_owned(),
        Some(n) => n,
    };
    let t = trimmed_path(path);
    let (head, _last) = split_last(t.as_str());
    let mut r = head;
    r.append(case.rename(file_stem_of(name.as_str()).as_str()).as_str());
    r.append(dotted_extension_of(name.as_str()).as_str());
    r
}

/// Whether the parents of `p` can all be found: it is not empty and not absolute.
pub open spec fn has_parents(p: Seq<char>) -> bool {
    p.len() > 0 && p[0] != '/'
}

/// Whether `d` is a parent directory of `p` at any depth: its parent, or a parent
/// directory of that, as `Path::parent` gives them.
pub open spec fn is_ancestor(p: Seq<char>, d: Seq<char>) -> bool
    decreases p.len(),
{
    match parent(p) {
        None => false,
        Some(q) => {
            proof {
                lemma_parent_shorter(p);
            }
            d == q || is_ancestor(q, d)
        },
    }
}

/// A parent directory is shorter than the path.
proof fn lemma_ancestor_shorter(p: Seq<char>, d: Seq<char>)
    ensures
        is_ancestor(p, d) ==> d.len() < p.len(),
    decreases p.len(),
{
    lemma_parent_shorter(p);
    if let Some(q) = parent(p) {
        lemma_ancestor_shorter(q, d);
    }
}

/// The parent of a parent directory is a parent directory.
proof fn lemma_ancestor_step(p: Seq<char>, c: Seq<char>, d: Seq<char>)
    requires
        is_ancestor(p, c),
        parent(c) == Some(d),
    ensures
        is_ancestor(p, d),
    decreases p.len(),
{
    lemma_parent_shorter(p);
    let q = parent(p).unwrap();
    if c != q {
        assert(is_ancestor(q, c));
        lemma_ancestor_step(q, c, d);
        assert(is_ancestor(q, d));
    } else {
        lemma_parent_shorter(q);
        assert(is_ancestor(q, d));
    }
    assert(is_ancestor(p, d));
}

fn insert_unique(dirs: &mut Vec<String>, d: String)
    requires
        views(old(dirs)@).no_duplicates(),
    ensures
        views(final(dirs)@).no_duplicates(),
        forall|x: Seq<char>| #[trigger] views(final(dirs)@).contains(x) <==> (views(old(dirs)@).contains(x) || x == d@),
{
    if !contains_str(dirs, d.as_str()) {
        let ghost before = views(dirs@);
        let ghost dv = d@;
        dirs.push(d);
        assert(views(dirs@) =~= before.push(dv));
        assert forall|x: Seq<char>| #[trigger] views(dirs@).contains(x) <==> (before.contains(x) || x == dv) by {
            if views(dirs@).contains(x) {
                let k = choose|k: int| 0 <= k < views(dirs@).len() && views(dirs@)[k] == x;
                if k < before.len() {
                    assert(before[k] == x);
                }
            }
            if before.contains(x) {
                let k = choose|k: int| 0 <= k < before.len() && before[k] == x;
                assert(views(dirs@)[k] == x);
            }
            if x == dv {
                assert(views(dirs@)[before.len() as int] == x);
            }
        }
    }
}

/// Adds each parent directory of `path`, at any depth and including the empty path, to
/// `dirs`, unless it is there already. An error for an empty or absolute path, whose
/// parents run out before the empty path is reached.
pub fn insert_all_parents(dirs: &mut Vec<String>, path: &str) -> (r: Result<(), Error>)
    requires
        views(old(dirs)@).no_duplicates(),
    ensures
        r is Ok <==> has_parents(path@),
        r is Ok ==> views(final(dirs)@).no_duplicates(),
        r is Ok ==> forall|x: Seq<char>| #[trigger] views(final(dirs)@).contains(x)
            <==> (views(old(dirs)@).contains(x) || is_ancestor(path@, x)),
        r matches Err(e) ==> (e matches Error::NoParent(s) && s@ == path@),
{
    let v = chars_of(path);
    if v.len() == 0 || v[0] == '/' {
        return Err(Error::NoParent(path.to_owned()));
    }
    let ghost start = views(dirs@);
    let mut cur = path.to_owned();
    loop
        invariant_except_break
            has_parents(cur@),
            cur@ == path@ || is_ancestor(path@, cur@),
            forall|x: Seq<char>| #[trigger] views(dirs@).contains(x)
                <==> (start.contains(x) || (is_ancestor(path@, x) && !is_ancestor(cur@, x))),
        invariant
            views(dirs@).no_duplicates(),
        ensures
            views(dirs@).no_duplicates(),
            forall|x: Seq<char>| #[trigger] views(dirs@).contains(x) <==> (start.contains(x) || is_ancestor(path@, x)),
        decreases cur@.len(),
    {
        proof {
            lemma_trimmed_prefix(cur@);
            lemma_parent_shorter(cur@);
        }
        let d = match path_parent(cur.as_str()) {
            Some(d) => d,
            None => {
                assert(trimmed(cur@)[0] == cur@[0]);
                assert(false);
                return Err(Error::NoParent(path.to_owned()));
            },
        };
        let ghost dv = d@;
        proof {
            if cur@ == path@ {
                assert(is_ancestor(path@, dv));
            } else {
                lemma_ancestor_step(path@, cur@, dv);
            }
            lemma_ancestor_shorter(dv, dv);
        }
        let last = d.as_str().is_empty();
        let ghost before = views(dirs@);
        insert_unique(dirs, d.clone());
        if last {
            assert forall|x: Seq<char>| #[trigger] views(dirs@).contains(x) <==> (start.contains(x) || is_ancestor(path@, x)) by {
                assert(!is_ancestor(dv, x));
            }
            break;
        }
        assert forall|x: Seq<char>| #[trigger] views(dirs@).contains(x)
            <==> (start.contains(x) || (is_ancestor(path@, x) && !is_ancestor(dv, x))) by {
            assert(is_ancestor(cur@, x) <==> (x == dv || is_ancestor(dv, x)));
        }
        cur = d;
    }
    Ok(())
}

/// The names of `files`, which all have one.
pub open spec fn file_names_of(files: Seq<FileDescriptor>) -> Seq<Seq<char>> {
    files.map_values(|f: FileDescriptor| f.name.unwrap()@)
}

/// Whether each of `files` has a name whose parents can all be found.
pub open spec fn dirs_ok(files: Seq<FileDescriptor>) -> bool {
    forall|j: int| 0 <= j < files.len() ==> (#[trigger] files[j]).name is Some && has_parents(files[j].name.unwrap()@)
}

/// Whether `d` is a parent directory of one of `files`.
pub open spec fn is_dir_of(files: Seq<FileDescriptor>, d: Seq<char>) -> bool {
    exists|j: int| 0 <= j < files.len() && is_ancestor(#[trigger] files[j].name.unwrap()@, d)
}

/// The directories that hold the files, at any depth, each once, and the file paths.
/// An error when a file has no name or an empty or absolute one.
pub fn collect_dirs_and_files(files: &Vec<FileDescriptor>) -> (r: Result<(Vec<String>, Vec<String>), Error>)
    ensures
        r is Ok <==> dirs_ok(files@),
        r matches Ok((dirs, paths)) ==> views(paths@) == file_names_of(files@)
            && views(dirs@).no_duplicates()
            && forall|d: Seq<char>| #[trigger] views(dirs@).contains(d) <==> is_dir_of(files@, d),
{
    let mut dirs: Vec<String> = Vec::new();
    let mut paths: Vec<String> = Vec::new();
    let mut i: usize = 0;
    while i < files.len()
        invariant
            i <= files@.len(),
            views(dirs@).no_duplicates(),
            dirs_ok(files@.take(i as int)),
            views(paths@) == file_names_of(files@.take(i as int)),
            forall|d: Seq<char>| #[trigger] views(dirs@).contains(d) <==> is_dir_of(files@.take(i as int), d),
        decreases files.len() - i,
    {
        let ghost prefix = files@.take(i as int);
        let ghost next = files@.take(i + 1);
        assert(next =~= prefix.push(files@[i as int]));
        let name = match &files[i].name {
            Some(n) => n,
            None => {
                assert(!dirs_ok(files@)) by {
                    assert(files@[i as int].name is None);
                }
                return Err(Error::Missing("No file name in descriptor to create relative path from.".to_owned()));
            },
        };
        let ghost before = views(dirs@);
        match insert_all_parents(&mut dirs, name.as_str()) {
            Ok(()) => {},
            Err(e) => {
                assert(!dirs_ok(files@)) by {
                    assert(!has_parents(files@[i as int].name.unwrap()@));
                }
                return Err(e);
            },
        }
        let ghost pv = views(paths@);
        paths.push(name.clone());
        proof {
            assert(views(paths@) =~= pv.push(name@));
            assert(file_names_of(next) =~= file_names_of(prefix).push(name@));
            assert(dirs_ok(next)) by {
                assert forall|j: int| 0 <= j < next.len() implies (#[trigger] next[j]).name is Some
                    && has_parents(next[j].name.unwrap()@) by {
                    if j < i {
                        assert(next[j] == prefix[j]);
                    }
                }
            }
            assert(views(paths@) =~= file_names_of(next));
            assert forall|d: Seq<char>| #[trigger] views(dirs@).contains(d) <==> is_dir_of(next, d) by {
                if is_dir_of(next, d) {
                    let j = choose|j: int| 0 <= j < next.len() && is_ancestor(#[trigger] next[j].name.unwrap()@, d);
                    if j < i {
                        assert(prefix[j] == next[j]);
                        assert(is_dir_of(prefix, d));
                    }
                }
                if is_dir_of(prefix, d) {
                    let j = choose|j: int| 0 <= j < prefix.len() && is_ancestor(#[trigger] prefix[j].name.unwrap()@, d);
                    assert(next[j] == prefix[j]);
                }
                if is_ancestor(name@, d) {
                    assert(next[i as int].name.unwrap()@ == name@);
                }
            }
        }
        i = i + 1;
    }
    assert(files@.take(files@.len() as int) =~= files@);
    Ok((dirs, paths))
}


/// The path written for the output of a proto file: `output` joined with its output
/// file name, the file name cased as configured.
#[verifier::opaque]
pub open spec fn file_output_path(config: RendererConfig, output: Seq<char>, name: Seq<char>) -> Seq<char> {
    let ext = config.file_extension@;
    let file = if ext.len() > 0 && ext[0] == '.' {
        replace_spec(name, proto_ext_full(), ext)
    } else {
        replace_spec(name, proto_ext_raw(), ext)
    };
    renamed_file_name(config.case_config.file_name, joined(output, file))
}

/// The outputs when each proto file gets its own: for each file that is not ignored,
/// in order, its output path and its index.
pub open spec fn file_outputs(config: RendererConfig, files: Seq<FileDescriptor>, output: Seq<char>) -> Seq<(Seq<char>, int)>
    decreases files.len(),
{
    if files.len() == 0 {
        Seq::<(Seq<char>, int)>::empty()
    } else {
        let rest = file_outputs(config, files.drop_last(), output);
        let f = files.last();
        if is_ignored_spec(config, f) {
            rest
        } else {
            rest.push((file_output_path(config, output, f.name.unwrap()@), files.len() - 1))
        }
    }
}

/// Output paths and file indices, as text and integers.
pub open spec fn outputs_view(v: Seq<(String, usize)>) -> Seq<(Seq<char>, int)> {
    v.map_values(|o: (String, usize)| (o.0@, o.1 as int))
}

/// The outputs when each proto file gets its own: for each file that is not ignored, in
/// order, the path its output is written to and its index.
pub fn plan_file_outputs(config: &RendererConfig, files: &Vec<FileDescriptor>, output: &str) -> (r: Vec<(String, usize)>)
    ensures
        outputs_view(r@) == file_outputs(*config, files@, output@),
{
    let mut r: Vec<(String, usize)> = Vec::new();
    let mut i: usize = 0;
    while i < files.len()
        invariant
            i <= files@.len(),
            outputs_view(r@) == file_outputs(*config, files@.take(i as int), output@),
        decreases files.len() - i,
    {
        let ghost next = files@.take(i + 1);
        assert(next.drop_last() =~= files@.take(i as int));
        assert(next.last() == files@[i as int]);
        if !is_ignored_file(config, &files[i]) {
            let name = match output_file_name(&files[i], config.file_extension.as_str()) {
                Ok(n) => n,
                Err(_) => {
                    assert(false);
                    String::new()
                },
            };
            let path = join_path(output, name.as_str());
            let renamed = rename_file_name(config.case_config.file_name, path.as_str());
            assert(renamed@ == file_output_path(*config, output@, files@[i as int].name.unwrap()@)) by {
                reveal(file_output_path);
            }
            let ghost before = outputs_view(r@);
            r.push((renamed, i));
            assert(outputs_view(r@) =~= before.push((renamed@, i as int)));
        }
        i = i + 1;
    }
    assert(files@.take(files@.len() as int) =~= files@);
    r
}

/// The indices among `idxs` of files that are not ignored, in order.
pub open spec fn kept_indices(config: RendererConfig, files: Seq<FileDescriptor>, idxs: Seq<int>) -> Seq<int>
    decreases idxs.len(),
{
    if idxs.len() == 0 {
        Seq::<int>::empty()
    } else {
        let rest = kept_indices(config, files, idxs.drop_last());
        if is_ignored_spec(config, files[idxs.last()]) {
            rest
        } else {
            rest.push(idxs.last())
        }
    }
}

/// The outputs when one file is written per package: for each package group, in order,
/// that keeps a file that is not ignored: the package, the path written, the kept file
/// indices and the file's path relative to the output root.
pub open spec fn package_outputs(
    config: RendererConfig,
    files: Seq<FileDescriptor>,
    output: Seq<char>,
    groups: Seq<(Seq<char>, Seq<int>)>,
) -> Seq<(Seq<char>, Seq<char>, Seq<int>, Seq<char>)>
    decreases groups.len(),
{
    if groups.len() == 0 {
        Seq::empty()
    } else {
        let rest = package_outputs(config, files, output, groups.drop_last());
        let g = groups.last();
        let kept = kept_indices(config, files, g.1);
        if kept.len() == 0 {
            rest
        } else {
            let ext = config.file_extension@;
            rest.push((
                g.0,
                renamed_file_name(config.case_config.file_name, package_file_path(output, g.0, ext)),
                kept,
                package_file_path(Seq::<char>::empty(), g.0, ext),
            ))
        }
    }
}

/// One output file per package.
pub struct PackageOutput {
    /// The package.
    pub package: String,
    /// The path the output is written to.
    pub path: String,
    /// The indices of the proto files written into it, in order.
    pub files: Vec<usize>,
    /// The output file's path relative to the output root.
    pub relative_path: String,
}

/// A package output, as text and integers.
pub open spec fn package_output_view(o: PackageOutput) -> (Seq<char>, Seq<char>, Seq<int>, Seq<char>) {
    (o.package@, o.path@, o.files@.map_values(|u: usize| u as int), o.relative_path@)
}

fn kept_of(config: &RendererConfig, files: &Vec<FileDescriptor>, idxs: &Vec<usize>) -> (r: Vec<usize>)
    requires
        forall|m: int| 0 <= m < idxs@.len() ==> (#[trigger] idxs@[m]) < files@.len(),
    ensures
        r@.map_values(|u: usize| u as int) == kept_indices(*config, files@, idxs@.map_values(|u: usize| u as int)),
{
    let mut r: Vec<usize> = Vec::new();
    let mut m: usize = 0;
    while m < idxs.len()
        invariant
            m <= idxs@.len(),
            forall|k: int| 0 <= k < idxs@.len() ==> (#[trigger] idxs@[k]) < files@.len(),
            r@.map_values(|u: usize| u as int) == kept_indices(*config, files@, idxs@.map_values(|u: usize| u as int).take(m as int)),
        decreases idxs.len() - m,
    {
        let ghost next = idxs@.map_values(|u: usize| u as int).take(m + 1);
        assert(next.drop_last() =~= idxs@.map_values(|u: usize| u as int).take(m as int));
        assert(next.last() == idxs@[m as int] as int);
        let j = idxs[m];
        if !is_ignored_file(config, &files[j]) {
            let ghost before = r@.map_values(|u: usize| u as int);
            r.push(j);
            assert(r@.map_values(|u: usize| u as int) =~= before.push(j as int));
        }
        m = m + 1;
    }
    assert(idxs@.map_values(|u: usize| u as int).take(idxs@.len() as int) =~= idxs@.map_values(|u: usize| u as int));
    r
}

/// Every index in the groups is an index of a file.
proof fn lemma_grouped_in_range(keys: Seq<Seq<char>>)
    ensures
        forall|g: int, m: int| 0 <= g < grouped(keys).len() && 0 <= m < grouped(keys)[g].1.len()
            ==> 0 <= #[trigger] grouped(keys)[g].1[m] < keys.len(),
    decreases keys.len(),
{
    if keys.len() > 0 {
        lemma_grouped_in_range(keys.drop_last());
        let prev = grouped(keys.drop_last());
        match group_of(prev, keys.last()) {
            Some(i) => {
                lemma_group_of_in_range(prev, keys.last());
            },
            None => {},
        }
    }
}

proof fn lemma_group_of_in_range(groups: Seq<(Seq<char>, Seq<int>)>, key: Seq<char>)
    ensures
        group_of(groups, key) matches Some(i) ==> 0 <= i < groups.len(),
    decreases groups.len(),
{
    if groups.len() > 0 {
        lemma_group_of_in_range(groups.skip(1), key);
    }
}

/// The output of one package group, unless all its files are ignored.
fn package_output(config: &RendererConfig, files: &Vec<FileDescriptor>, output: &str, package: &str, idxs: &Vec<usize>) -> (r: Option<PackageOutput>)
    requires
        forall|m: int| 0 <= m < idxs@.len() ==> (#[trigger] idxs@[m]) < files@.len(),
    ensures
        ({
            let kept = kept_indices(*config, files@, idxs@.map_values(|u: usize| u as int));
            if kept.len() == 0 {
                r is None
            } else {
                r matches Some(o) && package_output_view(o) == (
                    package@,
                    renamed_file_name(config.case_config.file_name, package_file_path(output@, package@, config.file_extension@)),
                    kept,
                    package_file_path(Seq::<char>::empty(), package@, config.file_extension@),
                )
            }
        }),
{
    let kept = kept_of(config, files, idxs);
    if kept.len() == 0 {
        return None;
    }
    let path = package_to_file_path(output, package, config.file_extension.as_str());
    let written = rename_file_name(config.case_config.file_name, path.as_str());
    let relative = package_to_file_path("", package, config.file_extension.as_str());
    proof {
        reveal_strlit("");
        assert(""@ =~= Seq::<char>::empty());
    }
    Some(PackageOutput {
        package: package.to_owned(),
        path: written,
        files: kept,
        relative_path: relative,
    })
}

/// The outputs when one file is written per package: for each package, in the order
/// packages first occur, that keeps a proto file that is not ignored, the package, the
/// path written (cased as configured), the kept file indices and the relative path.
pub fn plan_package_outputs(config: &RendererConfig, files: &Vec<FileDescriptor>, output: &str) -> (r: Vec<PackageOutput>)
    ensures
        r@.map_values(|o: PackageOutput| package_output_view(o)) == package_outputs(
            *config, files@, output@, grouped(packages_of(files@, config.default_package_file_name@))),
{
    let groups = collect_package_to_file_map(files, config.default_package_file_name.as_str());
    let ghost gv = grouped(packages_of(files@, config.default_package_file_name@));
    proof {
        lemma_grouped_in_range(packages_of(files@, config.default_package_file_name@));
    }
    let mut r: Vec<PackageOutput> = Vec::new();
    let mut g: usize = 0;
    while g < groups.len()
        invariant
            g <= groups@.len(),
            groups_view(groups@) == gv,
            gv == grouped(packages_of(files@, config.default_package_file_name@)),
            forall|a: int, m: int| 0 <= a < gv.len() && 0 <= m < gv[a].1.len()
                ==> 0 <= #[trigger] gv[a].1[m] < packages_of(files@, config.default_package_file_name@).len(),
            r@.map_values(|o: PackageOutput| package_output_view(o)) == package_outputs(*config, files@, output@, gv.take(g as int)),
        decreases groups.len() - g,
    {
        let ghost next = gv.take(g + 1);
        assert(next.drop_last() =~= gv.take(g as int));
        assert(next.last() == gv[g as int]);
        assert(gv[g as int].1 == groups@[g as int].1@.map_values(|u: usize| u as int));
        assert forall|m: int| 0 <= m < groups@[g as int].1@.len() implies (#[trigger] groups@[g as int].1@[m]) < files@.len() by {
            assert(gv[g as int].1[m] == groups@[g as int].1@[m] as int);
        }
        let item = package_output(config, files, output, groups[g].0.as_str(), &groups[g].1);
        let ghost kept_view = kept_indices(*config, files@, gv[g as int].1);
        assert(package_outputs(*config, files@, output@, next) == (if kept_view.len() == 0 {
            package_outputs(*config, files@, output@, gv.take(g as int))
        } else {
            package_outputs(*config, files@, output@, gv.take(g as int)).push((
                gv[g as int].0,
                renamed_file_name(config.case_config.file_name, package_file_path(output@, gv[g as int].0, config.file_extension@)),
                kept_view,
                package_file_path(Seq::<char>::empty(), gv[g as int].0, config.file_extension@),
            ))
        }));
        if let Some(entry) = item {
            let ghost before = r@.map_values(|o: PackageOutput| package_output_view(o));
            let ghost ev = package_output_view(entry);
            r.push(entry);
            assert(r@.map_values(|o: PackageOutput| package_output_view(o)) =~= before.push(ev));
        }
        g = g + 1;
    }
    assert(gv.take(gv.len() as int) =~= gv);
    r
}

/// The package file list and tree of the one metadata file written when one file is
/// written per package.
pub fn package_metadata(outputs: &Vec<PackageOutput>) -> (r: MetadataContext)
    ensures
        r@.directory.len() == 0,
        r@.file_names.len() == 0,
        r@.file_names_with_ext.len() == 0,
        r@.subdirectories.len() == 0,
        r@.package_files_full == outputs@.map_values(|o: PackageOutput| (o.package@, replace_spec(o.relative_path@, seq!['\\'], seq!['/']))),
        forall|q: Seq<Seq<char>>| #[trigger] r.tree_file(q)
            == crate::metadata::tree_file_at(outputs@.map_values(|o: PackageOutput| (o.package@, o.relative_path@)), q),
{
    let mut pairs: Vec<(String, String)> = Vec::new();
    let mut i: usize = 0;
    while i < outputs.len()
        invariant
            i <= outputs@.len(),
            crate::metadata::pair_views(pairs@) == outputs@.take(i as int).map_values(|o: PackageOutput| (o.package@, o.relative_path@)),
        decreases outputs.len() - i,
    {
        let ghost before = crate::metadata::pair_views(pairs@);
        pairs.push((outputs[i].package.clone(), outputs[i].relative_path.clone()));
        assert(crate::metadata::pair_views(pairs@) =~= before.push((outputs@[i as int].package@, outputs@[i as int].relative_path@)));
        assert(crate::metadata::pair_views(pairs@) =~= outputs@.take(i + 1).map_values(|o: PackageOutput| (o.package@, o.relative_path@)));
        i = i + 1;
    }
    assert(outputs@.take(outputs@.len() as int) =~= outputs@);
    let mut context = MetadataContext::new();
    context.append_package_files(pairs);
    assert(context@.package_files_full =~= outputs@.map_values(|o: PackageOutput| (o.package@, replace_spec(o.relative_path@, seq!['\\'], seq!['/']))));
    context
}


/// Whether each non-empty directory of `files` directly in `d` has a file name.
pub open spec fn subdirs_ok_for(files: Seq<FileDescriptor>, d: Seq<char>) -> bool {
    forall|d2: Seq<char>| #[trigger] is_dir_of(files, d2) && is_subdirectory_spec(d, d2) ==> file_name(d2) is Some
}

/// Whether the metadata of each directory of `files` can be gathered.
pub open spec fn metadata_ok(files: Seq<FileDescriptor>) -> bool {
    &&& dirs_ok(files)
    &&& forall|d: Seq<char>| #[trigger] is_dir_of(files, d) ==> subdirs_ok_for(files, d) && children_ok(file_names_of(files), d)
}

/// The metadata of each directory that holds proto files, at any depth: its
/// subdirectories among those directories, and the files directly in it. An error when
/// the directories cannot be found or a name cannot be taken.
#[verifier::loop_isolation(false)]
pub fn metadata_for_directories(files: &Vec<FileDescriptor>) -> (r: Result<Vec<MetadataContext>, Error>)
    ensures
        r is Ok <==> metadata_ok(files@),
        r matches Ok(cs) ==> ({
            let dirs = cs@.map_values(|c: MetadataContext| c@.directory);
            &&& dirs.no_duplicates()
            &&& forall|d: Seq<char>| #[trigger] dirs.contains(d) <==> is_dir_of(files@, d)
            &&& forall|i: int| 0 <= i < cs@.len() ==> {
                &&& (#[trigger] cs@[i])@.subdirectories == subdirectory_names(dirs, dirs[i])
                &&& cs@[i]@.file_names_with_ext == child_names(file_names_of(files@), dirs[i])
                &&& cs@[i]@.file_names == child_stems(file_names_of(files@), dirs[i])
                &&& cs@[i]@.package_files_full.len() == 0
            }
        }),
{
    let (dirs, paths) = match collect_dirs_and_files(files) {
        Ok(dp) => dp,
        Err(e) => return Err(e),
    };
    let ghost dv = views(dirs@);
    let ghost pv = views(paths@);
    let mut contexts: Vec<MetadataContext> = Vec::new();
    let mut i: usize = 0;
    while i < dirs.len()
        invariant
            i <= dirs@.len(),
            contexts@.len() == i,
            forall|k: int| 0 <= k < i ==> subdirectories_ok(dv, #[trigger] dv[k]) && children_ok(pv, dv[k]),
            forall|k: int| 0 <= k < i ==> {
                &&& (#[trigger] contexts@[k])@.directory == dv[k]
                &&& contexts@[k]@.subdirectories == subdirectory_names(dv, dv[k])
                &&& contexts@[k]@.file_names_with_ext == child_names(pv, dv[k])
                &&& contexts@[k]@.file_names == child_stems(pv, dv[k])
                &&& contexts@[k]@.package_files_full.len() == 0
            },
        decreases dirs.len() - i,
    {
        let mut context = MetadataContext::with_relative_dir(dirs[i].as_str());
        assert(context@.subdirectories =~= Seq::<Seq<char>>::empty());
        assert(context@.file_names =~= Seq::<Seq<char>>::empty());
        assert(context@.file_names_with_ext =~= Seq::<Seq<char>>::empty());
        match context.append_subdirectories(&dirs) {
            Ok(()) => {},
            Err(e) => {
                assert(!metadata_ok(files@)) by {
                    let d = dv[i as int];
                    assert(is_dir_of(files@, d)) by {
                        assert(dv.contains(d));
                    }
                    let j = choose|j: int| 0 <= j < dv.len() && is_subdirectory_spec(d, #[trigger] dv[j]) && !(file_name(dv[j]) is Some);
                    assert(dv.contains(dv[j]));
                    assert(is_dir_of(files@, dv[j]));
                }
                return Err(e);
            },
        }
        match context.append_files(&paths) {
            Ok(()) => {},
            Err(e) => {
                assert(!metadata_ok(files@)) by {
                    let d = dv[i as int];
                    assert(dv.contains(d));
                    assert(is_dir_of(files@, d));
                }
                return Err(e);
            },
        }
        assert(context@.subdirectories =~= subdirectory_names(dv, dv[i as int]));
        assert(context@.file_names =~= child_stems(pv, dv[i as int]));
        assert(context@.file_names_with_ext =~= child_names(pv, dv[i as int]));
        contexts.push(context);
        i = i + 1;
    }
    let ghost cdirs = contexts@.map_values(|c: MetadataContext| c@.directory);
    assert(cdirs =~= dv);
    assert(metadata_ok(files@)) by {
        assert forall|d: Seq<char>| #[trigger] is_dir_of(files@, d) implies subdirs_ok_for(files@, d)
            && children_ok(file_names_of(files@), d) by {
            assert(dv.contains(d));
            let k = choose|k: int| 0 <= k < dv.len() && dv[k] == d;
            assert(subdirectories_ok(dv, dv[k]));
            assert forall|d2: Seq<char>| #[trigger] is_dir_of(files@, d2) && is_subdirectory_spec(d, d2) implies file_name(d2) is Some by {
                assert(dv.contains(d2));
                let j = choose|j: int| 0 <= j < dv.len() && dv[j] == d2;
                assert(is_subdirectory_spec(d, dv[j]));
            }
        }
    }
    Ok(contexts)
}


proof fn lemma_group_of_spec(groups: Seq<(Seq<char>, Seq<int>)>, key: Seq<char>)
    ensures
        group_of(groups, key) matches Some(i) ==> 0 <= i < groups.len() && groups[i].0 == key,
        group_of(groups, key) is None ==> forall|i: int| 0 <= i < groups.len() ==> groups[i].0 != key,
    decreases groups.len(),
{
    if groups.len() > 0 {
        lemma_group_of_spec(groups.skip(1), key);
        if group_of(groups, key) is None {
            assert forall|i: int| 0 <= i < groups.len() implies groups[i].0 != key by {
                if i > 0 {
                    assert(groups[i] == groups.skip(1)[i - 1]);
                }
            }
        }
    }
}

/// Whether index `j` is in the group of its key.
pub open spec fn in_its_group(keys: Seq<Seq<char>>, j: int) -> bool {
    exists|g: int| 0 <= g < grouped(keys).len() && grouped(keys)[g].0 == keys[j] && #[trigger] grouped(keys)[g].1.contains(j)
}

/// Grouping by package loses no file and misplaces none: each file is in the group of
/// its package, each group holds only files of its package, and no package has two
/// groups.
pub proof fn lemma_grouped_partitions(keys: Seq<Seq<char>>)
    ensures
        forall|j: int| 0 <= j < keys.len() ==> #[trigger] in_its_group(keys, j),
        forall|g: int, m: int| 0 <= g < grouped(keys).len() && 0 <= m < grouped(keys)[g].1.len()
            ==> 0 <= #[trigger] grouped(keys)[g].1[m] < keys.len() && keys[grouped(keys)[g].1[m]] == grouped(keys)[g].0,
        forall|g1: int, g2: int| 0 <= g1 < g2 < grouped(keys).len() ==> #[trigger] grouped(keys)[g1].0 != #[trigger] grouped(keys)[g2].0,
    decreases keys.len(),
{
    if keys.len() > 0 {
        let prev_keys = keys.drop_last();
        lemma_grouped_partitions(prev_keys);
        let prev = grouped(prev_keys);
        let k = keys.last();
        let j = keys.len() - 1;
        lemma_group_of_spec(prev, k);
        assert forall|x: int| #![trigger keys[x]] 0 <= x < prev_keys.len() implies keys[x] == prev_keys[x] by {}
        match group_of(prev, k) {
            Some(i) => {
                assert(grouped(keys) == prev.update(i, (k, prev[i].1.push(j))));
                assert forall|g: int, m: int| 0 <= g < grouped(keys).len() && 0 <= m < grouped(keys)[g].1.len()
                    implies 0 <= #[trigger] grouped(keys)[g].1[m] < keys.len() && keys[grouped(keys)[g].1[m]] == grouped(keys)[g].0 by {
                    if g == i && m == prev[i].1.len() {
                    } else {
                        assert(grouped(keys)[g].1[m] == prev[g].1[m]);
                    }
                }
            },
            None => {
                assert(grouped(keys) == prev.push((k, seq![j])));
                assert forall|g: int, m: int| 0 <= g < grouped(keys).len() && 0 <= m < grouped(keys)[g].1.len()
                    implies 0 <= #[trigger] grouped(keys)[g].1[m] < keys.len() && keys[grouped(keys)[g].1[m]] == grouped(keys)[g].0 by {
                    if g < prev.len() {
                        assert(grouped(keys)[g] == prev[g]);
                    }
                }
                assert forall|g1: int, g2: int| 0 <= g1 < g2 < grouped(keys).len() implies #[trigger] grouped(keys)[g1].0 != #[trigger] grouped(keys)[g2].0 by {
                    if g2 < prev.len() {
                        assert(grouped(keys)[g1] == prev[g1]);
                        assert(grouped(keys)[g2] == prev[g2]);
                    } else {
                        assert(grouped(keys)[g1] == prev[g1]);
                    }
                }
            },
        }
        assert forall|x: int| 0 <= x < keys.len() implies #[trigger] in_its_group(keys, x) by {
            match group_of(prev, k) {
                Some(i) => {
                    if x == j {
                        assert(grouped(keys)[i].1[prev[i].1.len() as int] == j);
                        assert(grouped(keys)[i].1.contains(x));
                    } else {
                        assert(in_its_group(prev_keys, x));
                        let g = choose|g: int| 0 <= g < prev.len() && prev[g].0 == prev_keys[x] && #[trigger] prev[g].1.contains(x);
                        let m = choose|m: int| 0 <= m < prev[g].1.len() && prev[g].1[m] == x;
                        if g == i {
                            assert(grouped(keys)[i].1[m] == x);
                        }
                        assert(grouped(keys)[g].1.contains(x));
                    }
                },
                None => {
                    if x == j {
                        assert(grouped(keys)[prev.len() as int].1[0] == j);
                        assert(grouped(keys)[prev.len() as int].1.contains(x));
                    } else {
                        assert(in_its_group(prev_keys, x));
                        let g = choose|g: int| 0 <= g < prev.len() && prev[g].0 == prev_keys[x] && #[trigger] prev[g].1.contains(x);
                        assert(grouped(keys)[g] == prev[g]);
                        assert(grouped(keys)[g].1.contains(x));
                    }
                },
            }
        }
    }
}

} // verus!
