//! What a renderer is told of a message field.
use vstd::prelude::*;
use crate::config::RendererConfig;
use crate::descriptor::{same_field_options, FieldDescriptor, FieldOptions, LABEL_REPEATED};
use crate::error::Error;
use crate::proto_type::{native_type_of, proto_type_of, type_path_spec, ProtoType};
use crate::str_map::{text_map, StrMap};
use crate::text::{opt_str, opt_text};
use crate::type_path::TypePath;
use crate::util::str_or_error;

verus! {

/// The key and value types of a map field, from the entry message protoc writes for it.
pub struct MapEntryData {
    pub key: ProtoType,
    pub value: ProtoType,
}

/// What a `FieldContext` holds, as text.
pub struct FieldModel {
    pub name: Seq<char>,
    pub fully_qualified_type: Option<Seq<char>>,
    pub relative_type: Option<Seq<char>>,
    pub is_array: bool,
    pub is_map: bool,
    pub is_oneof: bool,
    pub fully_qualified_key_type: Option<Seq<char>>,
    pub fully_qualified_value_type: Option<Seq<char>>,
    pub relative_key_type: Option<Seq<char>>,
    pub relative_value_type: Option<Seq<char>>,
}

/// Whether two optional field options hold the same values.
pub open spec fn same_opt_field_options(a: Option<FieldOptions>, b: Option<FieldOptions>) -> bool {
    match (a, b) {
        (None, None) => true,
        (Some(x), Some(y)) => same_field_options(x, y),
        _ => false,
    }
}

/// A field name in the configured case, replaced by its override if one is configured
/// for the cased name.
pub open spec fn field_name_spec(name: Seq<char>, config: RendererConfig) -> Seq<char> {
    let renamed = config.case_config.field_name.renamed(name);
    let overrides = text_map(config.field_name_override@);
    if overrides.contains_key(renamed) {
        overrides[renamed]
    } else {
        renamed
    }
}

/// Whether a field is repeated.
pub open spec fn is_array_spec(field: FieldDescriptor) -> bool {
    field.label == Some(LABEL_REPEATED)
}

/// The map entry a field's type name refers to, if it is a map field.
pub open spec fn map_entry_of(field: FieldDescriptor, map_data: Map<Seq<char>, MapEntryData>) -> Option<MapEntryData> {
    match field.type_ref {
        None => None,
        Some(t) => if map_data.contains_key(t@) { Some(map_data[t@]) } else { None },
    }
}

/// What the context of `field` holds, seen from inside `package`; none when the field
/// has no name, no type, or a type that cannot be written.
#[verifier::opaque]
pub open spec fn field_model(
    field: FieldDescriptor,
    package: Option<Seq<char>>,
    map_data: Map<Seq<char>, MapEntryData>,
    config: RendererConfig,
) -> Option<FieldModel> {
    let parent_prefix = opt_text(config.field_relative_parent_prefix);
    match field.name {
        None => None,
        Some(n) => {
            let name = field_name_spec(n@, config);
            match map_entry_of(field, map_data) {
                Some(entry) => match (type_path_spec(entry.key, config), type_path_spec(entry.value, config)) {
                    (Some(k), Some(v)) => Some(FieldModel {
                        name,
                        fully_qualified_type: None,
                        relative_type: None,
                        is_array: false,
                        is_map: true,
                        is_oneof: field.oneof_index is Some,
                        fully_qualified_key_type: Some(k.text()),
                        fully_qualified_value_type: Some(v.text()),
                        relative_key_type: Some(k.relative_to(package, parent_prefix)),
                        relative_value_type: Some(v.relative_to(package, parent_prefix)),
                    }),
                    _ => None,
                },
                None => match proto_type_of(field) {
                    None => None,
                    Some(t) => match type_path_spec(t, config) {
                        None => None,
                        Some(p) => Some(FieldModel {
                            name,
                            fully_qualified_type: Some(p.text()),
                            relative_type: Some(p.relative_to(package, parent_prefix)),
                            is_array: is_array_spec(field),
                            is_map: false,
                            is_oneof: field.oneof_index is Some,
                            fully_qualified_key_type: None,
                            fully_qualified_value_type: None,
                            relative_key_type: None,
                            relative_value_type: None,
                        }),
                    },
                },
            }
        },
    }
}

/// What a renderer is told of a field.
#[derive(Clone)]
pub struct FieldContext {
    field_name: String,
    fully_qualified_type: Option<String>,
    relative_type: Option<String>,
    is_array: bool,
    is_map: bool,
    is_oneof: bool,
    fully_qualified_key_type: Option<String>,
    fully_qualified_value_type: Option<String>,
    relative_key_type: Option<String>,
    relative_value_type: Option<String>,
    options: Option<FieldOptions>,
}

impl View for FieldContext {
    type V = FieldModel;

    closed spec fn view(&self) -> FieldModel {
        FieldModel {
            name: self.field_name@,
            fully_qualified_type: opt_text(self.fully_qualified_type),
            relative_type: opt_text(self.relative_type),
            is_array: self.is_array,
            is_map: self.is_map,
            is_oneof: self.is_oneof,
            fully_qualified_key_type: opt_text(self.fully_qualified_key_type),
            fully_qualified_value_type: opt_text(self.fully_qualified_value_type),
            relative_key_type: opt_text(self.relative_key_type),
            relative_value_type: opt_text(self.relative_value_type),
        }
    }
}

fn clone_opt_field_options(o: &Option<FieldOptions>) -> (r: Option<FieldOptions>)
    ensures
        same_opt_field_options(r, *o),
{
    match o {
        None => None,
        Some(o) => Some(o.clone()),
    }
}

fn field_name(field: &FieldDescriptor, config: &RendererConfig) -> (r: Result<String, Error>)
    ensures
        r is Ok <==> field.name is Some,
        r matches Ok(n) ==> n@ == field_name_spec(field.name.unwrap()@, *config),
        r matches Err(e) ==> e matches Error::Missing(_),
{
    let name = match str_or_error(&field.name, "Field has no 'name'") {
        Ok(n) => n,
        Err(e) => return Err(e),
    };
    let renamed = config.case_config.field_name.rename(name);
    match config.field_name_override.get(renamed.as_str()) {
        Some(replacement) => Ok(replacement.clone()),
        None => Ok(renamed),
    }
}

impl FieldContext {
    /// The context of `field` of a message in `package`: a map field when its type name
    /// is a key of `map_data`, a field of one type otherwise. An error when the field has
    /// no name or no type, or its type cannot be written.
    pub fn new(
        field: &FieldDescriptor,
        package: Option<&str>,
        map_data: &StrMap<MapEntryData>,
        config: &RendererConfig,
    ) -> (r: Result<FieldContext, Error>)
        ensures
            r is Ok <==> field_model(*field, opt_str(package), map_data@, *config) is Some,
            r matches Ok(c) ==> Some(c@) == field_model(*field, opt_str(package), map_data@, *config)
                && same_opt_field_options(c.options_view(), field.options),
    {
        proof {
            reveal(field_model);
        }
        let entry = match &field.type_ref {
            None => None,
            Some(t) => map_data.get(t.as_str()),
        };
        match entry {
            None => FieldContext::new_basic(field, package, config),
            Some(entry) => FieldContext::new_map(field, package, entry, config),
        }
    }

    fn new_basic(field: &FieldDescriptor, package: Option<&str>, config: &RendererConfig) -> (r: Result<FieldContext, Error>)
        ensures
            r is Ok <==> (field.name is Some && proto_type_of(*field) is Some
                && type_path_spec(proto_type_of(*field).unwrap(), *config) is Some),
            r matches Ok(c) ==> c@ == (FieldModel {
                name: field_name_spec(field.name.unwrap()@, *config),
                fully_qualified_type: Some(type_path_spec(proto_type_of(*field).unwrap(), *config).unwrap().text()),
                relative_type: Some(type_path_spec(proto_type_of(*field).unwrap(), *config).unwrap().relative_to(
                    opt_str(package), opt_text(config.field_relative_parent_prefix))),
                is_array: is_array_spec(*field),
                is_map: false,
                is_oneof: field.oneof_index is Some,
                fully_qualified_key_type: None,
                fully_qualified_value_type: None,
                relative_key_type: None,
                relative_value_type: None,
            }) && same_opt_field_options(c.options_view(), field.options),
    {
        let proto_type = match ProtoType::from_field(field) {
            Ok(t) => t,
            Err(e) => return Err(e),
        };
        let path = match proto_type.to_type_path(config) {
            Ok(p) => p,
            Err(e) => return Err(e),
        };
        let parent_prefix = match &config.field_relative_parent_prefix {
            None => None,
            Some(p) => Some(p.as_str()),
        };
        let name = match field_name(field, config) {
            Ok(n) => n,
            Err(e) => return Err(e),
        };
        let is_array = match field.label {
            Some(label) => label == LABEL_REPEATED,
            None => false,
        };
        Ok(FieldContext {
            field_name: name,
            fully_qualified_type: Some(path.to_string()),
            relative_type: Some(path.relative_to(package, parent_prefix)),
            is_array,
            is_map: false,
            is_oneof: field.oneof_index.is_some(),
            fully_qualified_key_type: None,
            fully_qualified_value_type: None,
            relative_key_type: None,
            relative_value_type: None,
            options: clone_opt_field_options(&field.options),
        })
    }

    fn new_map(field: &FieldDescriptor, package: Option<&str>, entry: &MapEntryData, config: &RendererConfig) -> (r: Result<FieldContext, Error>)
        ensures
            r is Ok <==> (field.name is Some && type_path_spec(entry.key, *config) is Some
                && type_path_spec(entry.value, *config) is Some),
            r matches Ok(c) ==> c@ == (FieldModel {
                name: field_name_spec(field.name.unwrap()@, *config),
                fully_qualified_type: None,
                relative_type: None,
                is_array: false,
                is_map: true,
                is_oneof: field.oneof_index is Some,
                fully_qualified_key_type: Some(type_path_spec(entry.key, *config).unwrap().text()),
                fully_qualified_value_type: Some(type_path_spec(entry.value, *config).unwrap().text()),
                relative_key_type: Some(type_path_spec(entry.key, *config).unwrap().relative_to(
                    opt_str(package), opt_text(config.field_relative_parent_prefix))),
                relative_value_type: Some(type_path_spec(entry.value, *config).unwrap().relative_to(
                    opt_str(package), opt_text(config.field_relative_parent_prefix))),
            }) && same_opt_field_options(c.options_view(), field.options),
    {
        let key_path = match entry.key.to_type_path(config) {
            Ok(p) => p,
            Err(e) => return Err(e),
        };
        let value_path = match entry.value.to_type_path(config) {
            Ok(p) => p,
            Err(e) => return Err(e),
        };
        let parent_prefix = match &config.field_relative_parent_prefix {
            None => None,
            Some(p) => Some(p.as_str()),
        };
        let name = match field_name(field, config) {
            Ok(n) => n,
            Err(e) => return Err(e),
        };
        Ok(FieldContext {
            field_name: name,
            fully_qualified_type: None,
            relative_type: None,
            is_array: false,
            is_map: true,
            is_oneof: field.oneof_index.is_some(),
            fully_qualified_key_type: Some(key_path.to_string()),
            fully_qualified_value_type: Some(value_path.to_string()),
            relative_key_type: Some(key_path.relative_to(package, parent_prefix)),
            relative_value_type: Some(value_path.relative_to(package, parent_prefix)),
            options: clone_opt_field_options(&field.options),
        })
    }

    /// The options of the field.
    pub closed spec fn options_view(&self) -> Option<FieldOptions> {
        self.options
    }

    /// The field's name, cased and overridden as configured.
    pub fn name(&self) -> (r: &str)
        ensures
            r@ == self@.name,
    {
        self.field_name.as_str()
    }

    /// The field's type, fully qualified; none for a map field.
    pub fn fully_qualified_type(&self) -> (r: Option<&String>)
        ensures
            opt_text(match r { Some(s) => Some(*s), None => None }) == self@.fully_qualified_type,
    {
        self.fully_qualified_type.as_ref()
    }

    /// The field's type relative to the file's package; none for a map field.
    pub fn relative_type(&self) -> (r: Option<&String>)
        ensures
            opt_text(match r { Some(s) => Some(*s), None => None }) == self@.relative_type,
    {
        self.relative_type.as_ref()
    }

    /// Whether the field is repeated.
    pub fn is_array(&self) -> (r: bool)
        ensures
            r == self@.is_array,
    {
        self.is_array
    }

    /// Whether the field is a map.
    pub fn is_map(&self) -> (r: bool)
        ensures
            r == self@.is_map,
    {
        self.is_map
    }

    /// Whether the field belongs to a oneof.
    pub fn is_oneof(&self) -> (r: bool)
        ensures
            r == self@.is_oneof,
    {
        self.is_oneof
    }

    /// The key type of a map field, fully qualified.
    pub fn fully_qualified_key_type(&self) -> (r: Option<&String>)
        ensures
            opt_text(match r { Some(s) => Some(*s), None => None }) == self@.fully_qualified_key_type,
    {
        self.fully_qualified_key_type.as_ref()
    }

    /// The value type of a map field, fully qualified.
    pub fn fully_qualified_value_type(&self) -> (r: Option<&String>)
        ensures
            opt_text(match r { Some(s) => Some(*s), None => None }) == self@.fully_qualified_value_type,
    {
        self.fully_qualified_value_type.as_ref()
    }

    /// The key type of a map field, relative to the file's package.
    pub fn relative_key_type(&self) -> (r: Option<&String>)
        ensures
            opt_text(match r { Some(s) => Some(*s), None => None }) == self@.relative_key_type,
    {
        self.relative_key_type.as_ref()
    }

    /// The value type of a map field, relative to the file's package.
    pub fn relative_value_type(&self) -> (r: Option<&String>)
        ensures
            opt_text(match r { Some(s) => Some(*s), None => None }) == self@.relative_value_type,
    {
        self.relative_value_type.as_ref()
    }

    /// The field's options.
    pub fn options(&self) -> (r: Option<&FieldOptions>)
        ensures
            match r { Some(o) => self.options_view() == Some(*o), None => self.options_view() is None },
    {
        self.options.as_ref()
    }
}


/// A native type set on a field replaces its type entirely: a native type name without
/// package separators, for which no other native name is configured, is written as the
/// field's type, fully qualified and relative, from any package.
pub proof fn lemma_native_type_replaces_type(
    field: FieldDescriptor,
    package: Option<Seq<char>>,
    map_data: Map<Seq<char>, MapEntryData>,
    config: RendererConfig,
)
    requires
        field.name is Some,
        map_entry_of(field, map_data) is None,
        native_type_of(field) matches Some(n) && !n@.contains('.')
            && !text_map(config.type_config@).contains_key(n@),
    ensures
        field_model(field, package, map_data, config) matches Some(m)
            && m.fully_qualified_type == Some(native_type_of(field).unwrap()@)
            && m.relative_type == Some(native_type_of(field).unwrap()@),
{
    reveal(field_model);
    let n = native_type_of(field).unwrap()@;
    assert(crate::type_path::normalized(n) == n) by {
        if n.len() > 0 && n[0] == '.' {
            assert(n.contains('.'));
        }
    }
    assert(crate::text::last_index(n, '.') is None);
    let p = type_path_spec(proto_type_of(field).unwrap(), config).unwrap();
    assert(p.components == Seq::<Seq<char>>::empty());
    assert(p.name_with_case() == Some(n));
    assert(p.written_parts() =~= seq![n]);
    assert(p.text() == n);
    match package {
        None => {},
        Some(pk) => {
            assert(p.components.skip(0) =~= Seq::<Seq<char>>::empty());
            assert(p.relative_text(0, Seq::<char>::empty()) =~= n);
        },
    }
}

/// A field of a message or enum type `.p1.p2.T` that the type table does not map, and
/// no native type replaces, gets as its fully qualified type each package component in
/// the configured import case, then `T` in the configured message case, separated by
/// the configured package separator.
pub proof fn lemma_field_type_written_in_configured_cases(
    field: FieldDescriptor,
    package: Option<Seq<char>>,
    map_data: Map<Seq<char>, MapEntryData>,
    config: RendererConfig,
)
    requires
        field.name is Some,
        map_entry_of(field, map_data) is None,
        native_type_of(field) is None,
        field.type_ref is Some,
        !text_map(config.type_config@).contains_key(crate::type_path::normalized(field.type_ref.unwrap()@)),
    ensures
        ({
            let q = crate::type_path::normalized(field.type_ref.unwrap()@);
            field_model(field, package, map_data, config) matches Some(m) && m.fully_qualified_type == Some(
                match crate::text::last_index(q, '.') {
                    None => config.case_config.message_name.renamed(q),
                    Some(i) => crate::text::join_spec(
                        crate::type_path::package_components(q.take(i)).map_values(
                            |c: Seq<char>| config.case_config.import.renamed(c),
                        ).push(config.case_config.message_name.renamed(q.skip(i + 1))),
                        config.package_separator@,
                    ),
                },
            )
        }),
{
    reveal(field_model);
    crate::proto_type::lemma_type_name_written_in_configured_cases(field.type_ref.unwrap(), config);
}

} // verus!
