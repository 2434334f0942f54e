//! Small helpers on names and paths used throughout the generator.
use vstd::prelude::*;
use crate::error::Error;
use crate::paths::{extension, file_name, is_absolute, join_path, joined, parent, path_extension, path_file_name, path_parent};
use crate::text::{chars_of, replace_all, replace_spec, string_from_range, str_eq};

verus! {

/// `arg` without its first and last character, which are expected to be quotes.
pub fn unquote_arg(arg: &str) -> (r: String)
    requires
        arg@.len() >= 2,
    ensures
        r@ == arg@.subrange(1, arg@.len() - 1),
{
    let v = chars_of(arg);
    string_from_range(&v, 1, v.len() - 1)
}

/// The parent directory of `path`; an error when it has none.
pub fn path_parent_or_error(path: &str) -> (r: Result<String, Error>)
    ensures
        r matches Ok(p) ==> parent(path@) == Some(p@),
        r matches Err(e) ==> parent(path@) is None && (e matches Error::NoParent(s) && s@ == path@),
{
    match path_parent(path) {
        Some(p) => Ok(p),
        None => Err(Error::NoParent(path.to_owned())),
    }
}

/// The file name of `path`; an error when it has none.
pub fn file_name_or_error(path: &str) -> (r: Result<String, Error>)
    ensures
        r matches Ok(n) ==> file_name(path@) == Some(n@),
        r matches Err(e) ==> file_name(path@) is None && (e matches Error::NoFileName(s) && s@ == path@),
{
    match path_file_name(path) {
        Some(n) => Ok(n),
        None => Err(Error::NoFileName(path.to_owned())),
    }
}

/// The text of `value`; an error carrying `error` when there is none.
pub fn str_or_error<'a>(value: &'a Option<String>, error: &str) -> (r: Result<&'a str, Error>)
    ensures
        r matches Ok(s) ==> value matches Some(v) && s@ == v@,
        r matches Err(e) ==> value is None && (e matches Error::Missing(m) && m@ == error@),
{
    match value {
        Some(v) => Ok(v.as_str()),
        None => Err(Error::Missing(error.to_owned())),
    }
}

/// `(unknown)`, written for a name that is absent.
pub open spec fn unknown_text() -> Seq<char> {
    seq!['(', 'u', 'n', 'k', 'n', 'o', 'w', 'n', ')']
}

/// The text of `value`, or `(unknown)` when there is none.
pub fn str_or_unknown(value: &Option<String>) -> (r: &str)
    ensures
        r@ == (match value {
            Some(v) => v@,
            None => unknown_text(),
        }),
{
    match value {
        Some(v) => v.as_str(),
        None => {
            proof {
                reveal_strlit("(unknown)");
            }
            "(unknown)"
        },
    }
}

/// The path separator that paths are normalized to.
pub const NORMALIZED_SLASH: &'static str = "/";

/// `path` with each `\` replaced by `/`.
pub fn normalize_slashes(path: &str) -> (r: String)
    ensures
        r@ == replace_spec(path@, seq!['\\'], seq!['/']),
{
    proof {
        reveal_strlit("\\");
        reveal_strlit("/");
        assert("\\"@ =~= seq!['\\']);
        assert("/"@ =~= seq!['/']);
    }
    replace_all(path, "\\", "/")
}

/// `.proto`, the extension of proto files with its dot.
pub open spec fn proto_ext_full() -> Seq<char> {
    seq!['.', 'p', 'r', 'o', 't', 'o']
}

/// `proto`, the extension of proto files.
pub open spec fn proto_ext_raw() -> Seq<char> {
    seq!['p', 'r', 'o', 't', 'o']
}

/// `file_name` with `.proto` replaced by `new_ext` when that starts with a dot, and
/// with `proto` replaced by it otherwise.
pub fn replace_proto_ext(file_name: &str, new_ext: &str) -> (r: String)
    ensures
        r@ == (if new_ext@.len() > 0 && new_ext@[0] == '.' {
            replace_spec(file_name@, proto_ext_full(), new_ext@)
        } else {
            replace_spec(file_name@, proto_ext_raw(), new_ext@)
        }),
{
    let ext = chars_of(new_ext);
    proof {
        reveal_strlit(".proto");
        reveal_strlit("proto");
        assert(".proto"@ =~= proto_ext_full());
        assert("proto"@ =~= proto_ext_raw());
    }
    if ext.len() > 0 && ext[0] == '.' {
        replace_all(file_name, ".proto", new_ext)
    } else {
        replace_all(file_name, "proto", new_ext)
    }
}

/// `path_str` itself when it is absolute, joined to the root otherwise; an error for a
/// relative path without a root.
pub fn path_as_absolute(path_str: &str, default_root: Option<&str>) -> (r: Result<String, Error>)
    ensures
        r matches Ok(p) ==> p@ == (if is_absolute(path_str@) { path_str@ } else { joined(default_root.unwrap()@, path_str@) }),
        r is Err <==> !is_absolute(path_str@) && default_root is None,
        r matches Err(e) ==> (e matches Error::RelativePathWithoutRoot(s) && s@ == path_str@),
{
    let v = chars_of(path_str);
    if v.len() > 0 && v[0] == '/' {
        return Ok(path_str.to_owned());
    }
    match default_root {
        None => Err(Error::RelativePathWithoutRoot(path_str.to_owned())),
        Some(root) => Ok(join_path(root, path_str)),
    }
}

/// Whether `path` has the extension `proto`.
pub fn is_proto_ext(path: &str) -> (r: bool)
    ensures
        r == (extension(path@) == Some(proto_ext_raw())),
{
    proof {
        reveal_strlit("proto");
        assert("proto"@ =~= proto_ext_raw());
    }
    match path_extension(path) {
        Some(ext) => str_eq(ext.as_str(), "proto"),
        None => false,
    }
}

/// Text shown for paths, with `/` between components whatever the platform wrote.
pub trait DisplayNormalized {
    fn display_normalized(&self) -> String;
}

impl DisplayNormalized for str {
    fn display_normalized(&self) -> (r: String)
        ensures
            r@ == replace_spec(self@, seq!['\\'], seq!['/']),
    {
        normalize_slashes(self)
    }
}

} // verus!
