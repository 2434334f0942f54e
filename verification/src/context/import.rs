//! What a renderer is told of a file that a proto file imports.
use vstd::prelude::*;
use crate::error::Error;
use crate::paths::{file_name, file_stem_of, stem};
use crate::text::{replace_spec, str_eq};
use crate::util::{file_name_or_error, normalize_slashes};

verus! {

/// What an `ImportContext` holds.
pub struct ImportModel {
    pub file_path: Seq<char>,
    pub file_name: Seq<char>,
    pub file_name_with_ext: Seq<char>,
}

/// What the context of the import at `path` holds: the path with `/` separators, the
/// file name without and with extension; none when the path has no file name, or
/// when taking away the extension leaves `..`.
pub open spec fn import_model(path: Seq<char>) -> Option<ImportModel> {
    match file_name(path) {
        None => None,
        Some(n) => if stem(n) == seq!['.', '.'] {
            None
        } else {
            Some(ImportModel {
                file_path: replace_spec(path, seq!['\\'], seq!['/']),
                file_name: stem(n),
                file_name_with_ext: n,
            })
        },
    }
}

/// What a renderer is told of an imported file.
#[derive(Clone)]
pub struct ImportContext {
    file_path: String,
    file_name: String,
    file_name_with_ext: String,
}

impl View for ImportContext {
    type V = ImportModel;

    closed spec fn view(&self) -> ImportModel {
        ImportModel {
            file_path: self.file_path@,
            file_name: self.file_name@,
            file_name_with_ext: self.file_name_with_ext@,
        }
    }
}

impl ImportContext {
    /// The context of the import at `relative_path`; an error when the path has no file
    /// name.
    pub fn new(relative_path: &str) -> (r: Result<ImportContext, Error>)
        ensures
            r is Ok <==> import_model(relative_path@) is Some,
            r matches Ok(c) ==> Some(c@) == import_model(relative_path@),
            r matches Err(e) ==> e matches Error::NoFileName(_),
    {
        let with_ext = match file_name_or_error(relative_path) {
            Ok(n) => n,
            Err(e) => return Err(e),
        };
        let no_ext = file_stem_of(with_ext.as_str());
        proof {
            reveal_strlit("..");
            assert(".."@ =~= seq!['.', '.']);
        }
        if str_eq(no_ext.as_str(), "..") {
            return Err(Error::NoFileName(relative_path.to_owned()));
        }
        Ok(ImportContext {
            file_path: normalize_slashes(relative_path),
            file_name: no_ext,
            file_name_with_ext: with_ext,
        })
    }

    /// The path of the imported file, relative to the input root, with `/` separators.
    pub fn file_path(&self) -> (r: &str)
        ensures
            r@ == self@.file_path,
    {
        self.file_path.as_str()
    }

    /// The imported file's name without its extension.
    pub fn file_name(&self) -> (r: &str)
        ensures
            r@ == self@.file_name,
    {
        self.file_name.as_str()
    }

    /// The imported file's name with its extension.
    pub fn file_name_with_ext(&self) -> (r: &str)
        ensures
            r@ == self@.file_name_with_ext,
    {
        self.file_name_with_ext.as_str()
    }
}

} // verus!
