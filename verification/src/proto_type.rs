//! The type of a field, as protobuf states it, and the type path it is written as.
use vstd::prelude::*;
use crate::config::RendererConfig;
use crate::descriptor::FieldDescriptor;
use crate::error::Error;
use crate::str_map::text_map;
use crate::text::{join_spec, last_index};
use crate::type_path::{normalize_prefix, normalized, package_and_name, package_components, TypePath, TypePathModel};
use crate::util::str_or_unknown;

verus! {

/// Whether `id` numbers a protobuf field type.
pub open spec fn is_proto_type_id(id: int) -> bool {
    1 <= id <= 18
}

/// Whether `id` numbers a protobuf primitive: any field type but group (10), message
/// (11) and enum (14).
pub open spec fn is_primitive_id(id: int) -> bool {
    is_proto_type_id(id) && id != 10 && id != 11 && id != 14
}

/// The name of the primitive numbered `id`.
pub open spec fn primitive_name(id: int) -> Seq<char> {
    if id == 1 { "double"@ }
    else if id == 2 { "float"@ }
    else if id == 3 { "int64"@ }
    else if id == 4 { "uint64"@ }
    else if id == 5 { "int32"@ }
    else if id == 6 { "fixed64"@ }
    else if id == 7 { "fixed32"@ }
    else if id == 8 { "bool"@ }
    else if id == 9 { "string"@ }
    else if id == 12 { "bytes"@ }
    else if id == 13 { "uint32"@ }
    else if id == 15 { "sfixed32"@ }
    else if id == 16 { "sfixed64"@ }
    else if id == 17 { "sint32"@ }
    else { "sint64"@ }
}

/// The name of the primitive numbered `id`; an error for a number that is no field type
/// and for group, message and enum.
pub fn primitive_from_id(id: i32) -> (r: Result<&'static str, Error>)
    ensures
        r is Ok <==> is_primitive_id(id as int),
        r matches Ok(n) ==> n@ == primitive_name(id as int),
        r matches Err(e) ==> (if is_proto_type_id(id as int) {
            e == Error::NotPrimitive(id)
        } else {
            e == Error::InvalidProtoType(id)
        }),
{
    match id {
        1 => Ok("double"),
        2 => Ok("float"),
        3 => Ok("int64"),
        4 => Ok("uint64"),
        5 => Ok("int32"),
        6 => Ok("fixed64"),
        7 => Ok("fixed32"),
        8 => Ok("bool"),
        9 => Ok("string"),
        10 => Err(Error::NotPrimitive(id)),
        11 => Err(Error::NotPrimitive(id)),
        12 => Ok("bytes"),
        13 => Ok("uint32"),
        14 => Err(Error::NotPrimitive(id)),
        15 => Ok("sfixed32"),
        16 => Ok("sfixed64"),
        17 => Ok("sint32"),
        18 => Ok("sint64"),
        _ => Err(Error::InvalidProtoType(id)),
    }
}

/// The native name configured for the primitive numbered `id`, if it is a primitive
/// and one is configured.
pub open spec fn primitive_type_name_spec(id: int, type_config: Map<Seq<char>, Seq<char>>) -> Option<Seq<char>> {
    if is_primitive_id(id) && type_config.contains_key(primitive_name(id)) {
        Some(type_config[primitive_name(id)])
    } else {
        None
    }
}

/// The native name configured for the primitive numbered `id`.
pub fn primitive_type_name<'a>(id: i32, config: &'a RendererConfig) -> (r: Result<&'a str, Error>)
    ensures
        r is Ok <==> primitive_type_name_spec(id as int, text_map(config.type_config@)) is Some,
        r matches Ok(n) ==> Some(n@) == primitive_type_name_spec(id as int, text_map(config.type_config@)),
        r matches Err(e) ==> (if !is_proto_type_id(id as int) {
            e == Error::InvalidProtoType(id)
        } else if !is_primitive_id(id as int) {
            e == Error::NotPrimitive(id)
        } else {
            e matches Error::NoNativeType(s) && s@ == primitive_name(id as int)
        }),
{
    let name = match primitive_from_id(id) {
        Ok(n) => n,
        Err(e) => return Err(e),
    };
    match config.type_config.get(name) {
        None => Err(Error::NoNativeType(name.to_owned())),
        Some(native) => Ok(native.as_str()),
    }
}

/// `name` without its leading separator, replaced by its configured native name if
/// there is one.
pub open spec fn complex_type_name_spec(name: Seq<char>, type_config: Map<Seq<char>, Seq<char>>) -> Seq<char> {
    let n = normalized(name);
    if type_config.contains_key(n) {
        type_config[n]
    } else {
        n
    }
}

/// `name` without its leading separator, replaced by its configured native name if
/// there is one.
pub fn complex_type_name(name: &str, config: &RendererConfig) -> (r: String)
    ensures
        r@ == complex_type_name_spec(name@, text_map(config.type_config@)),
{
    let n = normalize_prefix(name);
    match config.type_config.get(n.as_str()) {
        None => n,
        Some(native) => native.clone(),
    }
}

/// The type of a field.
#[derive(Debug)]
pub enum ProtoType {
    /// A protobuf field type, by number.
    Type(i32),
    /// A message or enum type, by name.
    TypeName(String),
    /// A native type named in the field's options.
    NativeTypeOverride(String),
}

/// The path written for a type name: its components, its name and the configured
/// separator and package case; the name in message case when `change_case` holds.
pub open spec fn complex_type_path_spec(name: Seq<char>, config: RendererConfig, change_case: bool) -> TypePathModel {
    let n = complex_type_name_spec(name, text_map(config.type_config@));
    TypePathModel {
        components: match package_and_name(n).0 {
            None => Seq::<Seq<char>>::empty(),
            Some(p) => package_components(p),
        },
        simple_name: Some(package_and_name(n).1),
        separator: config.package_separator@,
        type_name_case: if change_case { Some(config.case_config.message_name) } else { None },
        package_case: Some(config.case_config.import),
    }
}

/// The path written for a primitive's native name.
pub open spec fn primitive_type_path_spec(native: Seq<char>) -> TypePathModel {
    TypePathModel {
        components: match package_and_name(native).0 {
            None => Seq::<Seq<char>>::empty(),
            Some(p) => package_components(p),
        },
        simple_name: Some(package_and_name(native).1),
        separator: seq!['.'],
        type_name_case: None,
        package_case: None,
    }
}

/// The path a type is written as; none for a primitive without a native name.
pub open spec fn type_path_spec(t: ProtoType, config: RendererConfig) -> Option<TypePathModel> {
    match t {
        ProtoType::Type(id) => match primitive_type_name_spec(id as int, text_map(config.type_config@)) {
            None => None,
            Some(n) => Some(primitive_type_path_spec(n)),
        },
        ProtoType::TypeName(n) => Some(complex_type_path_spec(n@, config, true)),
        ProtoType::NativeTypeOverride(n) => Some(complex_type_path_spec(n@, config, false)),
    }
}

/// The native type named in a field's options.
pub open spec fn native_type_of(field: FieldDescriptor) -> Option<String> {
    match field.options {
        None => None,
        Some(o) => o.native_type,
    }
}

/// The type of a field: its native type override, else its type name, else its type
/// number; none when it has none of them.
pub open spec fn proto_type_of(field: FieldDescriptor) -> Option<ProtoType> {
    match native_type_of(field) {
        Some(n) => Some(ProtoType::NativeTypeOverride(n)),
        None => match field.type_ref {
            Some(t) => Some(ProtoType::TypeName(t)),
            None => match field.kind {
                Some(id) => Some(ProtoType::Type(id)),
                None => None,
            },
        },
    }
}

impl ProtoType {
    /// The type of `field`: its native type override, else its type name, else its type
    /// number; an error when it has none of them.
    pub fn from_field(field: &FieldDescriptor) -> (r: Result<ProtoType, Error>)
        ensures
            r is Ok <==> proto_type_of(*field) is Some,
            r matches Ok(t) ==> proto_type_of(*field) == Some(t),
            r matches Err(e) ==> e matches Error::MissingFieldType(_),
    {
        if let Some(options) = &field.options {
            if let Some(native) = &options.native_type {
                return Ok(ProtoType::NativeTypeOverride(native.clone()));
            }
        }
        match &field.type_ref {
            Some(t) => Ok(ProtoType::TypeName(t.clone())),
            None => match field.kind {
                Some(id) => Ok(ProtoType::Type(id)),
                None => Err(Error::MissingFieldType(str_or_unknown(&field.name).to_owned())),
            },
        }
    }

    /// The path this type is written as: a primitive's configured native name as it is;
    /// a type name without its leading separator, replaced by its configured native name
    /// if any, in message case with packages in import case and the configured
    /// separator; a native override the same way but in its own case.
    pub fn to_type_path<'a>(&self, config: &'a RendererConfig) -> (r: Result<TypePath<'a>, Error>)
        ensures
            r is Ok <==> type_path_spec(*self, *config) is Some,
            r matches Ok(p) ==> type_path_spec(*self, *config) == Some(p@),
            r matches Err(e) ==> (*self matches ProtoType::Type(id) && (if !is_proto_type_id(id as int) {
                e == Error::InvalidProtoType(id)
            } else if !is_primitive_id(id as int) {
                e == Error::NotPrimitive(id)
            } else {
                e matches Error::NoNativeType(s) && s@ == primitive_name(id as int)
            })),
    {
        match self {
            ProtoType::Type(id) => {
                let native = match primitive_type_name(*id, config) {
                    Ok(n) => n,
                    Err(e) => return Err(e),
                };
                Ok(TypePath::from_type(native))
            },
            ProtoType::TypeName(name) => Ok(complex_type_path(name.as_str(), config, true)),
            ProtoType::NativeTypeOverride(name) => Ok(complex_type_path(name.as_str(), config, false)),
        }
    }
}

fn complex_type_path<'a>(name: &str, config: &'a RendererConfig, change_case: bool) -> (r: TypePath<'a>)
    ensures
        r@ == complex_type_path_spec(name@, *config, change_case),
{
    let n = complex_type_name(name, config);
    let mut path = TypePath::from_type(n.as_str());
    if change_case {
        path.set_name_case(Some(config.case_config.message_name));
    }
    path.set_package_case(Some(config.case_config.import));
    path.set_separator(config.package_separator.as_str());
    path
}

/// A message or enum type that the type table does not map is written fully qualified
/// as each of its package components in the configured import case, then its name in
/// the configured message case, separated by the configured package separator. A native
/// type named in a field's options is written the same way, its name as it is.
pub proof fn lemma_type_name_written_in_configured_cases(name: String, config: RendererConfig)
    requires
        !text_map(config.type_config@).contains_key(normalized(name@)),
    ensures
        ({
            let q = normalized(name@);
            let import = config.case_config.import;
            let message = config.case_config.message_name;
            let sep = config.package_separator@;
            &&& type_path_spec(ProtoType::TypeName(name), config) matches Some(p) && p.text() == match last_index(q, '.') {
                None => message.renamed(q),
                Some(i) => join_spec(
                    package_components(q.take(i)).map_values(|c: Seq<char>| import.renamed(c)).push(message.renamed(q.skip(i + 1))),
                    sep,
                ),
            }
            &&& type_path_spec(ProtoType::NativeTypeOverride(name), config) matches Some(p) && p.text() == match last_index(q, '.') {
                None => q,
                Some(i) => join_spec(
                    package_components(q.take(i)).map_values(|c: Seq<char>| import.renamed(c)).push(q.skip(i + 1)),
                    sep,
                ),
            }
        }),
{
    let q = normalized(name@);
    let m = complex_type_path_spec(name@, config, true);
    let o = complex_type_path_spec(name@, config, false);
    assert(complex_type_name_spec(name@, text_map(config.type_config@)) == q);
    let import = config.case_config.import;
    match last_index(q, '.') {
        None => {
            assert(m.written_parts() =~= seq![config.case_config.message_name.renamed(q)]);
            assert(o.written_parts() =~= seq![q]);
        },
        Some(i) => {
            assert(m.written_parts() =~= package_components(q.take(i)).map_values(|c: Seq<char>| import.renamed(c))
                .push(config.case_config.message_name.renamed(q.skip(i + 1))));
            assert(o.written_parts() =~= package_components(q.take(i)).map_values(|c: Seq<char>| import.renamed(c))
                .push(q.skip(i + 1)));
        },
    }
}

} // verus!
