//! The parts of protobuf descriptors that rendering reads: files, messages, fields,
//! enums and their options, as plain values. Custom `key=value` options are held as the
//! list of texts they were written as.
use vstd::prelude::*;

verus! {

/// The `label` number of a repeated field.
pub const LABEL_REPEATED: i32 = 3;

/// Options of a field.
#[derive(Debug, Default)]
pub struct FieldOptions {
    pub ctype: Option<i32>,
    pub jstype: Option<i32>,
    pub packed: Option<bool>,
    pub lazy: Option<bool>,
    pub deprecated: Option<bool>,
    pub weak: Option<bool>,
    /// A native type written for this field in place of its proto type.
    pub native_type: Option<String>,
    /// Custom `key=value` options.
    pub key_values: Vec<String>,
}

/// A message field.
#[derive(Debug, Default)]
pub struct FieldDescriptor {
    pub name: Option<String>,
    pub number: Option<i32>,
    /// 1 optional, 2 required, 3 repeated.
    pub label: Option<i32>,
    /// The number of a protobuf type (1 double ... 18 sint64).
    pub kind: Option<i32>,
    /// The name of a message or enum type, usually fully qualified with a leading `.`.
    pub type_ref: Option<String>,
    pub oneof_index: Option<i32>,
    pub options: Option<FieldOptions>,
}

/// Options of a message.
#[derive(Debug, Default)]
pub struct MessageOptions {
    pub message_set_wire_format: Option<bool>,
    pub no_standard_descriptor_accessor: Option<bool>,
    pub deprecated: Option<bool>,
    /// Set on the messages that protoc writes for map fields.
    pub map_entry: Option<bool>,
    pub key_values: Vec<String>,
}

/// A message, with the messages nested in it.
#[derive(Debug, Default)]
pub struct MessageDescriptor {
    pub name: Option<String>,
    pub field: Vec<FieldDescriptor>,
    pub nested_type: Vec<MessageDescriptor>,
    pub options: Option<MessageOptions>,
}

/// Options of an enum value.
#[derive(Debug, Default)]
pub struct EnumValueOptions {
    pub deprecated: Option<bool>,
}

/// An enum value.
#[derive(Debug, Default)]
pub struct EnumValueDescriptor {
    pub name: Option<String>,
    pub number: Option<i32>,
    pub options: Option<EnumValueOptions>,
}

/// Options of an enum.
#[derive(Debug, Default)]
pub struct EnumOptions {
    pub allow_alias: Option<bool>,
    pub deprecated: Option<bool>,
    pub key_values: Vec<String>,
}

/// An enum.
#[derive(Debug, Default)]
pub struct EnumDescriptor {
    pub name: Option<String>,
    pub value: Vec<EnumValueDescriptor>,
    pub options: Option<EnumOptions>,
}

/// Options of a file.
#[derive(Debug, Default)]
pub struct FileOptions {
    pub java_package: Option<String>,
    pub java_outer_classname: Option<String>,
    pub java_multiple_files: Option<bool>,
    pub java_string_check_utf8: Option<bool>,
    pub optimize_for: Option<i32>,
    pub go_package: Option<String>,
    pub cc_generic_services: Option<bool>,
    pub java_generic_services: Option<bool>,
    pub py_generic_services: Option<bool>,
    pub php_generic_services: Option<bool>,
    pub deprecated: Option<bool>,
    pub cc_enable_arenas: Option<bool>,
    pub objc_class_prefix: Option<String>,
    pub csharp_namespace: Option<String>,
    pub swift_prefix: Option<String>,
    pub php_class_prefix: Option<String>,
    pub php_namespace: Option<String>,
    pub php_metadata_namespace: Option<String>,
    pub ruby_package: Option<String>,
    pub key_values: Vec<String>,
}

/// A proto file.
#[derive(Debug, Default)]
pub struct FileDescriptor {
    /// Path of the file relative to the input root.
    pub name: Option<String>,
    pub package: Option<String>,
    /// Paths of the imported files.
    pub dependency: Vec<String>,
    pub message_type: Vec<MessageDescriptor>,
    pub enum_type: Vec<EnumDescriptor>,
    pub options: Option<FileOptions>,
}

/// Whether two field options hold the same values.
pub open spec fn same_field_options(a: FieldOptions, b: FieldOptions) -> bool {
    &&& a.ctype == b.ctype
    &&& a.jstype == b.jstype
    &&& a.packed == b.packed
    &&& a.lazy == b.lazy
    &&& a.deprecated == b.deprecated
    &&& a.weak == b.weak
    &&& a.native_type == b.native_type
    &&& a.key_values@ == b.key_values@
}

/// Whether two message options hold the same values.
pub open spec fn same_message_options(a: MessageOptions, b: MessageOptions) -> bool {
    &&& a.message_set_wire_format == b.message_set_wire_format
    &&& a.no_standard_descriptor_accessor == b.no_standard_descriptor_accessor
    &&& a.deprecated == b.deprecated
    &&& a.map_entry == b.map_entry
    &&& a.key_values@ == b.key_values@
}

/// Whether two enum options hold the same values.
pub open spec fn same_enum_options(a: EnumOptions, b: EnumOptions) -> bool {
    &&& a.allow_alias == b.allow_alias
    &&& a.deprecated == b.deprecated
    &&& a.key_values@ == b.key_values@
}

/// Whether two file options hold the same values.
pub open spec fn same_file_options(a: FileOptions, b: FileOptions) -> bool {
    &&& a.java_package == b.java_package
    &&& a.java_outer_classname == b.java_outer_classname
    &&& a.java_multiple_files == b.java_multiple_files
    &&& a.java_string_check_utf8 == b.java_string_check_utf8
    &&& a.optimize_for == b.optimize_for
    &&& a.go_package == b.go_package
    &&& a.cc_generic_services == b.cc_generic_services
    &&& a.java_generic_services == b.java_generic_services
    &&& a.py_generic_services == b.py_generic_services
    &&& a.php_generic_services == b.php_generic_services
    &&& a.deprecated == b.deprecated
    &&& a.cc_enable_arenas == b.cc_enable_arenas
    &&& a.objc_class_prefix == b.objc_class_prefix
    &&& a.csharp_namespace == b.csharp_namespace
    &&& a.swift_prefix == b.swift_prefix
    &&& a.php_class_prefix == b.php_class_prefix
    &&& a.php_namespace == b.php_namespace
    &&& a.php_metadata_namespace == b.php_metadata_namespace
    &&& a.ruby_package == b.ruby_package
    &&& a.key_values@ == b.key_values@
}

/// A copy of a list of strings.
pub fn clone_strings(v: &Vec<String>) -> (r: Vec<String>)
    ensures
        r@ == v@,
{
    let mut r: Vec<String> = Vec::new();
    let mut i: usize = 0;
    while i < v.len()
        invariant
            i <= v@.len(),
            r@ == v@.take(i as int),
        decreases v.len() - i,
    {
        r.push(v[i].clone());
        assert(r@ =~= v@.take(i + 1));
        i = i + 1;
    }
    assert(v@.take(v@.len() as int) =~= v@);
    r
}

fn clone_opt_string(s: &Option<String>) -> (r: Option<String>)
    ensures
        r == *s,
{
    match s {
        None => None,
        Some(s) => Some(s.clone()),
    }
}

impl Clone for FieldOptions {
    fn clone(&self) -> (r: Self)
        ensures
            same_field_options(r, *self),
    {
        FieldOptions {
            ctype: self.ctype,
            jstype: self.jstype,
            packed: self.packed,
            lazy: self.lazy,
            deprecated: self.deprecated,
            weak: self.weak,
            native_type: clone_opt_string(&self.native_type),
            key_values: clone_strings(&self.key_values),
        }
    }
}

impl Clone for MessageOptions {
    fn clone(&self) -> (r: Self)
        ensures
            same_message_options(r, *self),
    {
        MessageOptions {
            message_set_wire_format: self.message_set_wire_format,
            no_standard_descriptor_accessor: self.no_standard_descriptor_accessor,
            deprecated: self.deprecated,
            map_entry: self.map_entry,
            key_values: clone_strings(&self.key_values),
        }
    }
}

impl Clone for EnumValueOptions {
    fn clone(&self) -> (r: Self)
        ensures
            r == *self,
    {
        EnumValueOptions { deprecated: self.deprecated }
    }
}

impl Clone for EnumOptions {
    fn clone(&self) -> (r: Self)
        ensures
            same_enum_options(r, *self),
    {
        EnumOptions {
            allow_alias: self.allow_alias,
            deprecated: self.deprecated,
            key_values: clone_strings(&self.key_values),
        }
    }
}

impl Clone for FileOptions {
    fn clone(&self) -> (r: Self)
        ensures
            same_file_options(r, *self),
    {
        FileOptions {
            java_package: clone_opt_string(&self.java_package),
            java_outer_classname: clone_opt_string(&self.java_outer_classname),
            java_multiple_files: self.java_multiple_files,
            java_string_check_utf8: self.java_string_check_utf8,
            optimize_for: self.optimize_for,
            go_package: clone_opt_string(&self.go_package),
            cc_generic_services: self.cc_generic_services,
            java_generic_services: self.java_generic_services,
            py_generic_services: self.py_generic_services,
            php_generic_services: self.php_generic_services,
            deprecated: self.deprecated,
            cc_enable_arenas: self.cc_enable_arenas,
            objc_class_prefix: clone_opt_string(&self.objc_class_prefix),
            csharp_namespace: clone_opt_string(&self.csharp_namespace),
            swift_prefix: clone_opt_string(&self.swift_prefix),
            php_class_prefix: clone_opt_string(&self.php_class_prefix),
            php_namespace: clone_opt_string(&self.php_namespace),
            php_metadata_namespace: clone_opt_string(&self.php_metadata_namespace),
            ruby_package: clone_opt_string(&self.ruby_package),
            key_values: clone_strings(&self.key_values),
        }
    }
}

} // verus!
