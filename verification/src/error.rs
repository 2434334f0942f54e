//! The errors the library reports.
use vstd::prelude::*;

verus! {

/// What went wrong, with the value that caused it.
#[derive(Debug, Clone, PartialEq, Eq)]
pub enum Error {
    /// A custom option is not of the form `key=value` with both parts non-empty.
    InvalidKeyValue(String),
    /// A relative path was given where no root directory is known.
    RelativePathWithoutRoot(String),
    /// A path has no parent directory.
    NoParent(String),
    /// A path has no file name.
    NoFileName(String),
    /// A required value is absent; the text says which.
    Missing(String),
    /// An IDL name that is not supported.
    UnsupportedIdl(String),
    /// A language name that is not supported.
    UnsupportedLang(String),
    /// A language that is not supported for a kind of generation.
    UnsupportedFor(String, String),
    /// A number that is no protobuf field type.
    InvalidProtoType(i32),
    /// A protobuf field type that is no primitive (group, message or enum).
    NotPrimitive(i32),
    /// A protobuf primitive for which no native type is configured.
    NoNativeType(String),
    /// A field that has neither a type nor a type name.
    MissingFieldType(String),
    /// An enum value without a name or a number.
    InvalidEnumValue(String),
    /// A map entry message lacks its `key` or `value` field.
    MissingMapField(String),
    /// A config file name with an extension that is not json, yaml or yml.
    UnsupportedConfigType(String),
    /// An overlay value is not of the type asked for; the text says which.
    WrongValueType(String),
}

} // verus!
