//! What scripts read from the rendering contexts: names and types as text, options with
//! protobuf's defaults for unset values, custom `key=value` options by key, and overlay
//! values by their YAML type.
use vstd::prelude::*;
use crate::context::enums::{EnumContext, EnumValueContext};
use crate::context::field::FieldContext;
use crate::context::file::FileContext;
use crate::context::import::ImportContext;
use crate::context::message::MessageContext;
use crate::descriptor::{EnumOptions, EnumValueOptions, FieldOptions, FileOptions, MessageOptions};
use crate::error::Error;
use crate::metadata::{MetadataContext, PackageFile, PackageTreeNode};
use crate::option_kv::{is_valid_kv, kv_key, kv_value, split_kv_or_error};
use crate::text::{replace_spec, str_eq, views};
use crate::util::normalize_slashes;

verus! {

/// protobuf's `optimize_for` when a file does not set it: `SPEED`.
pub const OPTIMIZE_FOR_SPEED: i32 = 1;

/// The text an optional string holds, or the empty text.
pub open spec fn text_or_empty(o: Option<String>) -> Seq<char> {
    match o {
        Some(s) => s@,
        None => Seq::empty(),
    }
}

/// The text an optional text holds, or the empty text.
pub open spec fn opt_or_empty(o: Option<Seq<char>>) -> Seq<char> {
    match o {
        Some(s) => s,
        None => Seq::empty(),
    }
}

/// A copy of the string `opt` holds, or a new empty string.
fn get_str_or_new(opt: Option<&String>) -> (r: String)
    ensures
        r@ == match opt {
            Some(s) => s@,
            None => Seq::empty(),
        },
{
    match opt {
        Some(s) => s.clone(),
        None => String::new(),
    }
}

////////////////////////////////////////////////////
// Contexts

/// The path of the proto file a file context was made from.
pub fn file_source_file(context: &FileContext) -> (r: String)
    ensures
        r@ == context@.source_file,
{
    context.source_file().to_owned()
}

/// The package of a file context.
pub fn file_package(context: &FileContext) -> (r: String)
    ensures
        r@ == context@.package,
{
    context.package().to_owned()
}

/// The path of an import.
pub fn import_file_path(context: &ImportContext) -> (r: String)
    ensures
        r@ == context@.file_path,
{
    context.file_path().to_owned()
}

/// The file name of an import, without its extension.
pub fn import_file_name(context: &ImportContext) -> (r: String)
    ensures
        r@ == context@.file_name,
{
    context.file_name().to_owned()
}

/// The file name of an import, with its extension.
pub fn import_file_name_with_ext(context: &ImportContext) -> (r: String)
    ensures
        r@ == context@.file_name_with_ext,
{
    context.file_name_with_ext().to_owned()
}

/// The name of an enum.
pub fn enum_name(context: &EnumContext) -> (r: String)
    ensures
        r@ == context@.name,
{
    context.name().to_owned()
}

/// The name of an enum value.
pub fn enum_value_name(context: &EnumValueContext) -> (r: String)
    ensures
        r@ == context@.name,
{
    context.name().to_owned()
}

/// The number of an enum value, as a script integer.
pub fn enum_value_number(context: &EnumValueContext) -> (r: i64)
    ensures
        r == context@.number,
{
    context.number() as i64
}

/// The name of a message.
pub fn message_name(context: &MessageContext) -> (r: String)
    ensures
        r@ == context@.name,
{
    context.name().to_owned()
}

/// The overlay value of `key` on a message; null where it has none.
pub fn message_overlay(context: &MessageContext, key: String) -> (r: serde_yaml::Value)
    ensures
        context@.overlays.contains_key(key@) ==> r == context@.overlays[key@],
        !context@.overlays.contains_key(key@) ==> yaml_null(r),
{
    match context.overlay(key.as_str()) {
        Some(v) => crate::overlay::clone_value(v),
        None => null_value(),
    }
}

/// The name of a field.
pub fn field_name(context: &FieldContext) -> (r: String)
    ensures
        r@ == context@.name,
{
    context.name().to_owned()
}

/// The fully qualified type of a field; empty where it has none.
pub fn field_fully_qualified_type(context: &FieldContext) -> (r: String)
    ensures
        r@ == opt_or_empty(context@.fully_qualified_type),
{
    get_str_or_new(context.fully_qualified_type())
}

/// The type of a field relative to its file's package; empty where it has none.
pub fn field_relative_type(context: &FieldContext) -> (r: String)
    ensures
        r@ == opt_or_empty(context@.relative_type),
{
    get_str_or_new(context.relative_type())
}

/// Whether a field is repeated and no map.
pub fn field_is_array(context: &FieldContext) -> (r: bool)
    ensures
        r == context@.is_array,
{
    context.is_array()
}

/// Whether a field is a map.
pub fn field_is_map(context: &FieldContext) -> (r: bool)
    ensures
        r == context@.is_map,
{
    context.is_map()
}

/// Whether a field belongs to a oneof.
pub fn field_is_oneof(context: &FieldContext) -> (r: bool)
    ensures
        r == context@.is_oneof,
{
    context.is_oneof()
}

/// The fully qualified key type of a map field; empty for other fields.
pub fn field_fully_qualified_key_type(context: &FieldContext) -> (r: String)
    ensures
        r@ == opt_or_empty(context@.fully_qualified_key_type),
{
    get_str_or_new(context.fully_qualified_key_type())
}

/// The fully qualified value type of a map field; empty for other fields.
pub fn field_fully_qualified_value_type(context: &FieldContext) -> (r: String)
    ensures
        r@ == opt_or_empty(context@.fully_qualified_value_type),
{
    get_str_or_new(context.fully_qualified_value_type())
}

/// The relative key type of a map field; empty for other fields.
pub fn field_relative_key_type(context: &FieldContext) -> (r: String)
    ensures
        r@ == opt_or_empty(context@.relative_key_type),
{
    get_str_or_new(context.relative_key_type())
}

/// The relative value type of a map field; empty for other fields.
pub fn field_relative_value_type(context: &FieldContext) -> (r: String)
    ensures
        r@ == opt_or_empty(context@.relative_value_type),
{
    get_str_or_new(context.relative_value_type())
}

/// The directory of a metadata context, with `/` as separator.
pub fn metadata_directory(context: &MetadataContext) -> (r: String)
    ensures
        r@ == replace_spec(context@.directory, seq!['\\'], seq!['/']),
{
    normalize_slashes(context.directory())
}

/// The file name of a package file.
pub fn package_file_file_name(context: &PackageFile) -> (r: String)
    ensures
        r@ == context.pair().1,
{
    context.file_name().to_owned()
}

/// The package of a package file.
pub fn package_file_package(context: &PackageFile) -> (r: String)
    ensures
        r@ == context.pair().0,
{
    context.package().to_owned()
}

/// The file of a package tree node; empty where the package has none.
pub fn package_tree_node_file_name(context: &PackageTreeNode) -> (r: String)
    ensures
        r@ == opt_or_empty(context.file_view()),
{
    get_str_or_new(context.file_name())
}

////////////////////////////////////////////////////
// Options

/// The value of the first custom option whose key is `index`; empty where none has it.
pub open spec fn kv_lookup(kvs: Seq<Seq<char>>, index: Seq<char>) -> Seq<char>
    decreases kvs.len(),
{
    if kvs.len() == 0 {
        Seq::empty()
    } else if kv_key(kvs[0]) == index {
        kv_value(kvs[0])
    } else {
        kv_lookup(kvs.drop_first(), index)
    }
}

/// Whether every custom option of `kvs` is of the form `key=value`.
pub open spec fn all_valid_kv(kvs: Seq<Seq<char>>) -> bool {
    forall|j: int| 0 <= j < kvs.len() ==> is_valid_kv(#[trigger] kvs[j])
}

/// The value of the custom option `index` among `key_values`.
fn opt_get_kv(key_values: &Vec<String>, index: String) -> (r: String)
    requires
        all_valid_kv(views(key_values@)),
    ensures
        r@ == kv_lookup(views(key_values@), index@),
{
    let ghost kvs = views(key_values@);
    assert(kvs.skip(0) =~= kvs);
    let mut i: usize = 0;
    while i < key_values.len()
        invariant
            i <= key_values@.len(),
            kvs == views(key_values@),
            all_valid_kv(kvs),
            kv_lookup(kvs, index@) == kv_lookup(kvs.skip(i as int), index@),
        decreases key_values.len() - i,
    {
        assert(kvs[i as int] == key_values@[i as int]@);
        let (key, value) = match split_kv_or_error(key_values[i].as_str()) {
            Ok(kv) => kv,
            Err(_) => {
                assert(is_valid_kv(kvs[i as int]));
                return String::new();
            },
        };
        assert(kvs.skip(i as int)[0] == kvs[i as int]);
        if str_eq(key.as_str(), index.as_str()) {
            return value;
        }
        assert(kvs.skip(i as int).drop_first() =~= kvs.skip(i + 1));
        i = i + 1;
    }
    String::new()
}

/// The `optimize_for` option of a file; unset reads as protobuf's default, `SPEED`.
pub fn file_opt_optimize_for(opt: &FileOptions) -> (r: i64)
    ensures
        r == opt.optimize_for.unwrap_or(OPTIMIZE_FOR_SPEED),
{
    opt.optimize_for.unwrap_or(OPTIMIZE_FOR_SPEED) as i64
}

/// The `ctype` option of a field; unset reads as 0 (`STRING`).
pub fn field_opt_ctype(opt: &FieldOptions) -> (r: i64)
    ensures
        r == opt.ctype.unwrap_or(0),
{
    opt.ctype.unwrap_or(0) as i64
}

/// The `jstype` option of a field; unset reads as 0 (`JS_NORMAL`).
pub fn field_opt_jstype(opt: &FieldOptions) -> (r: i64)
    ensures
        r == opt.jstype.unwrap_or(0),
{
    opt.jstype.unwrap_or(0) as i64
}

/// The custom option `index` of a file; empty where the file has none.
pub fn file_opt_get_kv(options: &FileOptions, index: String) -> (r: String)
    requires
        all_valid_kv(views(options.key_values@)),
    ensures
        r@ == kv_lookup(views(options.key_values@), index@),
{
    opt_get_kv(&options.key_values, index)
}

/// The custom option `index` of an enum; empty where the enum has none.
pub fn enum_opt_get_kv(options: &EnumOptions, index: String) -> (r: String)
    requires
        all_valid_kv(views(options.key_values@)),
    ensures
        r@ == kv_lookup(views(options.key_values@), index@),
{
    opt_get_kv(&options.key_values, index)
}

/// The custom option `index` of a message; empty where the message has none.
pub fn message_opt_get_kv(options: &MessageOptions, index: String) -> (r: String)
    requires
        all_valid_kv(views(options.key_values@)),
    ensures
        r@ == kv_lookup(views(options.key_values@), index@),
{
    opt_get_kv(&options.key_values, index)
}

/// The custom option `index` of a field; empty where the field has none.
pub fn field_opt_get_kv(options: &FieldOptions, index: String) -> (r: String)
    requires
        all_valid_kv(views(options.key_values@)),
    ensures
        r@ == kv_lookup(views(options.key_values@), index@),
{
    opt_get_kv(&options.key_values, index)
}

/// The `deprecated` option; unset reads as `false`.
pub fn file_opt_deprecated(opt: &FileOptions) -> (r: bool)
    ensures
        r == opt.deprecated.unwrap_or(false),
{
    opt.deprecated.unwrap_or(false)
}

/// The `java_generic_services` option; unset reads as `false`.
pub fn file_opt_java_generic_services(opt: &FileOptions) -> (r: bool)
    ensures
        r == opt.java_generic_services.unwrap_or(false),
{
    opt.java_generic_services.unwrap_or(false)
}

/// The `java_multiple_files` option; unset reads as `false`.
pub fn file_opt_java_multiple_files(opt: &FileOptions) -> (r: bool)
    ensures
        r == opt.java_multiple_files.unwrap_or(false),
{
    opt.java_multiple_files.unwrap_or(false)
}

/// The `cc_generic_services` option; unset reads as `false`.
pub fn file_opt_cc_generic_services(opt: &FileOptions) -> (r: bool)
    ensures
        r == opt.cc_generic_services.unwrap_or(false),
{
    opt.cc_generic_services.unwrap_or(false)
}

/// The `cc_enable_arenas` option; unset reads as `false`.
pub fn file_opt_cc_enable_arenas(opt: &FileOptions) -> (r: bool)
    ensures
        r == opt.cc_enable_arenas.unwrap_or(false),
{
    opt.cc_enable_arenas.unwrap_or(false)
}

/// The `java_string_check_utf8` option; unset reads as `false`.
pub fn file_opt_java_string_check_utf8(opt: &FileOptions) -> (r: bool)
    ensures
        r == opt.java_string_check_utf8.unwrap_or(false),
{
    opt.java_string_check_utf8.unwrap_or(false)
}

/// The `php_generic_services` option; unset reads as `false`.
pub fn file_opt_php_generic_services(opt: &FileOptions) -> (r: bool)
    ensures
        r == opt.php_generic_services.unwrap_or(false),
{
    opt.php_generic_services.unwrap_or(false)
}

/// The `py_generic_services` option; unset reads as `false`.
pub fn file_opt_py_generic_services(opt: &FileOptions) -> (r: bool)
    ensures
        r == opt.py_generic_services.unwrap_or(false),
{
    opt.py_generic_services.unwrap_or(false)
}

/// The `allow_alias` option; unset reads as `false`.
pub fn enum_opt_allow_alias(opt: &EnumOptions) -> (r: bool)
    ensures
        r == opt.allow_alias.unwrap_or(false),
{
    opt.allow_alias.unwrap_or(false)
}

/// The `deprecated` option; unset reads as `false`.
pub fn enum_opt_deprecated(opt: &EnumOptions) -> (r: bool)
    ensures
        r == opt.deprecated.unwrap_or(false),
{
    opt.deprecated.unwrap_or(false)
}

/// The `deprecated` option; unset reads as `false`.
pub fn enum_value_opt_deprecated(opt: &EnumValueOptions) -> (r: bool)
    ensures
        r == opt.deprecated.unwrap_or(false),
{
    opt.deprecated.unwrap_or(false)
}

/// The `message_set_wire_format` option; unset reads as `false`.
pub fn message_opt_message_set_wire_format(opt: &MessageOptions) -> (r: bool)
    ensures
        r == opt.message_set_wire_format.unwrap_or(false),
{
    opt.message_set_wire_format.unwrap_or(false)
}

/// The `no_standard_descriptor_accessor` option; unset reads as `false`.
pub fn message_opt_no_standard_descriptor_accessor(opt: &MessageOptions) -> (r: bool)
    ensures
        r == opt.no_standard_descriptor_accessor.unwrap_or(false),
{
    opt.no_standard_descriptor_accessor.unwrap_or(false)
}

/// The `deprecated` option; unset reads as `false`.
pub fn message_opt_deprecated(opt: &MessageOptions) -> (r: bool)
    ensures
        r == opt.deprecated.unwrap_or(false),
{
    opt.deprecated.unwrap_or(false)
}

/// The `map_entry` option; unset reads as `false`.
pub fn message_opt_map_entry(opt: &MessageOptions) -> (r: bool)
    ensures
        r == opt.map_entry.unwrap_or(false),
{
    opt.map_entry.unwrap_or(false)
}

/// The `packed` option; unset reads as `false`.
pub fn field_opt_packed(opt: &FieldOptions) -> (r: bool)
    ensures
        r == opt.packed.unwrap_or(false),
{
    opt.packed.unwrap_or(false)
}

/// The `lazy` option; unset reads as `false`.
pub fn field_opt_lazy(opt: &FieldOptions) -> (r: bool)
    ensures
        r == opt.lazy.unwrap_or(false),
{
    opt.lazy.unwrap_or(false)
}

/// The `deprecated` option; unset reads as `false`.
pub fn field_opt_deprecated(opt: &FieldOptions) -> (r: bool)
    ensures
        r == opt.deprecated.unwrap_or(false),
{
    opt.deprecated.unwrap_or(false)
}

/// The `weak` option; unset reads as `false`.
pub fn field_opt_weak(opt: &FieldOptions) -> (r: bool)
    ensures
        r == opt.weak.unwrap_or(false),
{
    opt.weak.unwrap_or(false)
}

/// The `go_package` option; unset reads as empty.
pub fn file_opt_go_package(opt: &FileOptions) -> (r: String)
    ensures
        r@ == text_or_empty(opt.go_package),
{
    get_str_or_new(opt.go_package.as_ref())
}

/// The `java_package` option; unset reads as empty.
pub fn file_opt_java_package(opt: &FileOptions) -> (r: String)
    ensures
        r@ == text_or_empty(opt.java_package),
{
    get_str_or_new(opt.java_package.as_ref())
}

/// The `ruby_package` option; unset reads as empty.
pub fn file_opt_ruby_package(opt: &FileOptions) -> (r: String)
    ensures
        r@ == text_or_empty(opt.ruby_package),
{
    get_str_or_new(opt.ruby_package.as_ref())
}

/// The `csharp_namespace` option; unset reads as empty.
pub fn file_opt_csharp_namespace(opt: &FileOptions) -> (r: String)
    ensures
        r@ == text_or_empty(opt.csharp_namespace),
{
    get_str_or_new(opt.csharp_namespace.as_ref())
}

/// The `php_namespace` option; unset reads as empty.
pub fn file_opt_php_namespace(opt: &FileOptions) -> (r: String)
    ensures
        r@ == text_or_empty(opt.php_namespace),
{
    get_str_or_new(opt.php_namespace.as_ref())
}

/// The `php_metadata_namespace` option; unset reads as empty.
pub fn file_opt_php_metadata_namespace(opt: &FileOptions) -> (r: String)
    ensures
        r@ == text_or_empty(opt.php_metadata_namespace),
{
    get_str_or_new(opt.php_metadata_namespace.as_ref())
}

/// The `swift_prefix` option; unset reads as empty.
pub fn file_opt_swift_prefix(opt: &FileOptions) -> (r: String)
    ensures
        r@ == text_or_empty(opt.swift_prefix),
{
    get_str_or_new(opt.swift_prefix.as_ref())
}

/// The `java_outer_classname` option; unset reads as empty.
pub fn file_opt_java_outer_classname(opt: &FileOptions) -> (r: String)
    ensures
        r@ == text_or_empty(opt.java_outer_classname),
{
    get_str_or_new(opt.java_outer_classname.as_ref())
}

/// The `php_class_prefix` option; unset reads as empty.
pub fn file_opt_php_class_prefix(opt: &FileOptions) -> (r: String)
    ensures
        r@ == text_or_empty(opt.php_class_prefix),
{
    get_str_or_new(opt.php_class_prefix.as_ref())
}

/// The `objc_class_prefix` option; unset reads as empty.
pub fn file_opt_objc_class_prefix(opt: &FileOptions) -> (r: String)
    ensures
        r@ == text_or_empty(opt.objc_class_prefix),
{
    get_str_or_new(opt.objc_class_prefix.as_ref())
}

////////////////////////////////////////////////////
// Overlay values

/// Whether an overlay value is null (`serde_yaml::Value::is_null`).
pub uninterp spec fn yaml_null(v: serde_yaml::Value) -> bool;

/// The boolean an overlay value holds (`serde_yaml::Value::as_bool`).
pub uninterp spec fn yaml_bool(v: serde_yaml::Value) -> Option<bool>;

/// The integer an overlay value holds, where it fits in an `i64`
/// (`serde_yaml::Value::as_i64`).
pub uninterp spec fn yaml_i64(v: serde_yaml::Value) -> Option<i64>;

/// Whether an overlay value is a floating-point number (`serde_yaml::Value::is_f64`).
pub uninterp spec fn yaml_is_f64(v: serde_yaml::Value) -> bool;

/// The text an overlay value holds (`serde_yaml::Value::as_str`).
pub uninterp spec fn yaml_str(v: serde_yaml::Value) -> Option<Seq<char>>;

/// The items of an overlay value that is a sequence (`serde_yaml::Value::as_sequence`).
pub uninterp spec fn yaml_sequence(v: serde_yaml::Value) -> Option<Seq<serde_yaml::Value>>;

/// The entries of an overlay value that is a mapping, in the mapping's order
/// (`serde_yaml::Value::as_mapping`).
pub uninterp spec fn yaml_mapping(v: serde_yaml::Value) -> Option<Seq<(serde_yaml::Value, serde_yaml::Value)>>;

/// The null value (`serde_yaml::Value::Null`), of which `is_null` holds.
#[verifier::external_body]
fn null_value() -> (r: serde_yaml::Value)
    ensures
        yaml_null(r),
{
    serde_yaml::Value::Null
}

/// `serde_yaml::Value::is_null`.
#[verifier::external_body]
fn value_is_null(v: &serde_yaml::Value) -> (r: bool)
    ensures
        r == yaml_null(*v),
{
    v.is_null()
}

/// `serde_yaml::Value::as_bool`.
#[verifier::external_body]
fn value_as_bool(v: &serde_yaml::Value) -> (r: Option<bool>)
    ensures
        r == yaml_bool(*v),
{
    v.as_bool()
}

/// `serde_yaml::Value::is_bool`, which is whether `as_bool` gives a boolean.
#[verifier::external_body]
fn value_is_bool(v: &serde_yaml::Value) -> (r: bool)
    ensures
        r == yaml_bool(*v) is Some,
{
    v.is_bool()
}

/// `serde_yaml::Value::as_i64`.
#[verifier::external_body]
fn value_as_i64(v: &serde_yaml::Value) -> (r: Option<i64>)
    ensures
        r == yaml_i64(*v),
{
    v.as_i64()
}

/// `serde_yaml::Value::is_i64`, which is whether `as_i64` gives an integer.
#[verifier::external_body]
fn value_is_i64(v: &serde_yaml::Value) -> (r: bool)
    ensures
        r == yaml_i64(*v) is Some,
{
    v.is_i64()
}

/// `serde_yaml::Value::is_f64`.
#[verifier::external_body]
fn value_is_f64(v: &serde_yaml::Value) -> (r: bool)
    ensures
        r == yaml_is_f64(*v),
{
    v.is_f64()
}

/// `serde_yaml::Value::as_str`, the text copied out.
#[verifier::external_body]
fn value_as_str(v: &serde_yaml::Value) -> (r: Option<String>)
    ensures
        match r {
            Some(s) => yaml_str(*v) == Some(s@),
            None => yaml_str(*v) is None,
        },
{
    match v.as_str() {
        Some(s) => Some(s.to_owned()),
        None => None,
    }
}

/// `serde_yaml::Value::is_string`, which is whether `as_str` gives a text.
#[verifier::external_body]
fn value_is_string(v: &serde_yaml::Value) -> (r: bool)
    ensures
        r == yaml_str(*v) is Some,
{
    v.is_string()
}

/// `serde_yaml::Value::as_sequence`, the items copied out (each copy is the same value:
/// `Clone` is derived).
#[verifier::external_body]
fn value_as_sequence(v: &serde_yaml::Value) -> (r: Option<Vec<serde_yaml::Value>>)
    ensures
        match r {
            Some(s) => yaml_sequence(*v) == Some(s@),
            None => yaml_sequence(*v) is None,
        },
{
    match v.as_sequence() {
        Some(s) => Some(s.to_vec()),
        None => None,
    }
}

/// `serde_yaml::Value::is_sequence`, which is whether `as_sequence` gives items.
#[verifier::external_body]
fn value_is_sequence(v: &serde_yaml::Value) -> (r: bool)
    ensures
        r == yaml_sequence(*v) is Some,
{
    v.is_sequence()
}

/// `serde_yaml::Value::as_mapping`, the entries copied out in the mapping's order.
#[verifier::external_body]
fn value_as_mapping(v: &serde_yaml::Value) -> (r: Option<Vec<(serde_yaml::Value, serde_yaml::Value)>>)
    ensures
        match r {
            Some(m) => yaml_mapping(*v) == Some(m@),
            None => yaml_mapping(*v) is None,
        },
{
    match v.as_mapping() {
        Some(m) => Some(m.clone().into_iter().collect()),
        None => None,
    }
}

/// `serde_yaml::Value::is_mapping`, which is whether `as_mapping` gives entries.
#[verifier::external_body]
fn value_is_mapping(v: &serde_yaml::Value) -> (r: bool)
    ensures
        r == yaml_mapping(*v) is Some,
{
    v.is_mapping()
}

/// Whether the value is null.
pub fn yaml_value_is_null(value: &serde_yaml::Value) -> (r: bool)
    ensures
        r == yaml_null(*value),
{
    value_is_null(value)
}

/// Whether the value is set: anything but null.
pub fn yaml_value_is_valid(value: &serde_yaml::Value) -> (r: bool)
    ensures
        r == !yaml_null(*value),
{
    !value_is_null(value)
}

/// Whether the value is a string.
pub fn yaml_value_is_str(value: &serde_yaml::Value) -> (r: bool)
    ensures
        r == yaml_str(*value) is Some,
{
    value_is_string(value)
}

/// Whether the value is a string.
pub fn yaml_value_is_string(value: &serde_yaml::Value) -> (r: bool)
    ensures
        r == yaml_str(*value) is Some,
{
    value_is_string(value)
}

/// Whether the value is an integer that fits in an `i64`.
pub fn yaml_value_is_int(value: &serde_yaml::Value) -> (r: bool)
    ensures
        r == yaml_i64(*value) is Some,
{
    value_is_i64(value)
}

/// Whether the value is a floating-point number.
pub fn yaml_value_is_float(value: &serde_yaml::Value) -> (r: bool)
    ensures
        r == yaml_is_f64(*value),
{
    value_is_f64(value)
}

/// Whether the value is a boolean.
pub fn yaml_value_is_bool(value: &serde_yaml::Value) -> (r: bool)
    ensures
        r == yaml_bool(*value) is Some,
{
    value_is_bool(value)
}

/// Whether the value is a sequence.
pub fn yaml_value_is_array(value: &serde_yaml::Value) -> (r: bool)
    ensures
        r == yaml_sequence(*value) is Some,
{
    value_is_sequence(value)
}

/// Whether the value is a mapping.
pub fn yaml_value_is_map(value: &serde_yaml::Value) -> (r: bool)
    ensures
        r == yaml_mapping(*value) is Some,
{
    value_is_mapping(value)
}

/// The string the value holds; an error if it holds none.
pub fn yaml_value_as_str(value: &serde_yaml::Value) -> (r: Result<String, Error>)
    ensures
        match yaml_str(*value) {
            Some(s) => r matches Ok(t) && t@ == s,
            None => r matches Err(Error::WrongValueType(_)),
        },
{
    match value_as_str(value) {
        Some(s) => Ok(s),
        None => Err(Error::WrongValueType("value is not a string".to_owned())),
    }
}

/// The string the value holds; an error if it holds none.
pub fn yaml_value_as_string(value: &serde_yaml::Value) -> (r: Result<String, Error>)
    ensures
        match yaml_str(*value) {
            Some(s) => r matches Ok(t) && t@ == s,
            None => r matches Err(Error::WrongValueType(_)),
        },
{
    yaml_value_as_str(value)
}

/// The integer the value holds; an error unless it holds one that fits in an `i64`.
pub fn yaml_value_as_int(value: &serde_yaml::Value) -> (r: Result<i64, Error>)
    ensures
        match yaml_i64(*value) {
            Some(i) => r == Ok::<i64, Error>(i),
            None => r matches Err(Error::WrongValueType(_)),
        },
{
    match value_as_i64(value) {
        Some(i) => Ok(i),
        None => Err(Error::WrongValueType("value is not an i64".to_owned())),
    }
}

/// The boolean the value holds; an error if it holds none.
pub fn yaml_value_as_bool(value: &serde_yaml::Value) -> (r: Result<bool, Error>)
    ensures
        match yaml_bool(*value) {
            Some(b) => r == Ok::<bool, Error>(b),
            None => r matches Err(Error::WrongValueType(_)),
        },
{
    match value_as_bool(value) {
        Some(b) => Ok(b),
        None => Err(Error::WrongValueType("value is not a bool".to_owned())),
    }
}

/// The items of a sequence value; an error for any other value.
pub fn yaml_value_as_array(value: &serde_yaml::Value) -> (r: Result<Vec<serde_yaml::Value>, Error>)
    ensures
        match yaml_sequence(*value) {
            Some(s) => r matches Ok(v) && v@ == s,
            None => r matches Err(Error::WrongValueType(_)),
        },
{
    match value_as_sequence(value) {
        Some(s) => Ok(s),
        None => Err(Error::WrongValueType("value is not an array".to_owned())),
    }
}

/// The entries of a mapping whose keys are strings, in the mapping's order, each with
/// its key as text; entries with other keys are left out.
pub open spec fn string_keyed(entries: Seq<(serde_yaml::Value, serde_yaml::Value)>) -> Seq<(Seq<char>, serde_yaml::Value)>
    decreases entries.len(),
{
    if entries.len() == 0 {
        Seq::empty()
    } else {
        let rest = string_keyed(entries.drop_last());
        match yaml_str(entries.last().0) {
            Some(k) => rest.push((k, entries.last().1)),
            None => rest,
        }
    }
}

/// The entries of a mapping value whose keys are strings, each with its key as text;
/// an error for any other value.
pub fn yaml_value_as_map(value: &serde_yaml::Value) -> (r: Result<Vec<(String, serde_yaml::Value)>, Error>)
    ensures
        match yaml_mapping(*value) {
            Some(m) => r matches Ok(v) && v@.map_values(|e: (String, serde_yaml::Value)| (e.0@, e.1)) == string_keyed(m),
            None => r matches Err(Error::WrongValueType(_)),
        },
{
    let entries = match value_as_mapping(value) {
        Some(m) => m,
        None => return Err(Error::WrongValueType("value is not an i64".to_owned())),
    };
    let mut map: Vec<(String, serde_yaml::Value)> = Vec::new();
    let mut i: usize = 0;
    while i < entries.len()
        invariant
            i <= entries@.len(),
            map@.map_values(|e: (String, serde_yaml::Value)| (e.0@, e.1)) == string_keyed(entries@.take(i as int)),
        decreases entries.len() - i,
    {
        let ghost before = map@;
        assert(entries@.take(i + 1).drop_last() =~= entries@.take(i as int));
        assert(entries@.take(i + 1).last() == entries@[i as int]);
        match value_as_str(&entries[i].0) {
            Some(key) => {
                map.push((key, crate::overlay::clone_value(&entries[i].1)));
                assert(map@.map_values(|e: (String, serde_yaml::Value)| (e.0@, e.1))
                    =~= before.map_values(|e: (String, serde_yaml::Value)| (e.0@, e.1)).push((key@, entries@[i as int].1)));
            },
            None => {},
        }
        i = i + 1;
    }
    assert(entries@.take(entries@.len() as int) =~= entries@);
    Ok(map)
}

} // verus!
