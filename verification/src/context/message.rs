//! What a renderer is told of a message: its name, its fields and its overlays.
use vstd::prelude::*;
use crate::config::RendererConfig;
use crate::context::field::{field_model, FieldContext, FieldModel, MapEntryData};
use crate::descriptor::{same_message_options, FieldDescriptor, MessageDescriptor, MessageOptions};
use crate::error::Error;
use crate::overlay::OverlayConfig;
use crate::proto_type::{proto_type_of, ProtoType};
use crate::str_map::StrMap;
use crate::text::{opt_str, push_char, str_eq};
use crate::util::{str_or_error, str_or_unknown};

verus! {

/// What a `MessageContext` holds, as text.
pub struct MessageModel {
    pub name: Seq<char>,
    pub fields: Seq<FieldModel>,
    pub overlays: Map<Seq<char>, serde_yaml::Value>,
}

/// Whether a nested message is the entry message protoc writes for a map field.
pub open spec fn is_map_entry(m: MessageDescriptor) -> bool {
    m.options matches Some(o) && o.map_entry == Some(true)
}

/// The first of `fields` named `name`.
pub open spec fn first_field_named(fields: Seq<FieldDescriptor>, name: Seq<char>) -> Option<FieldDescriptor>
    decreases fields.len(),
{
    if fields.len() == 0 {
        None
    } else if fields[0].name matches Some(n) && n@ == name {
        Some(fields[0])
    } else {
        first_field_named(fields.skip(1), name)
    }
}

/// The key and value types of a map entry message: those of its first fields named
/// `key` and `value`.
pub open spec fn entry_types(entry: MessageDescriptor) -> Option<MapEntryData> {
    match (first_field_named(entry.field@, "key"@), first_field_named(entry.field@, "value"@)) {
        (Some(kf), Some(vf)) => match (proto_type_of(kf), proto_type_of(vf)) {
            (Some(k), Some(v)) => Some(MapEntryData { key: k, value: v }),
            _ => None,
        },
        _ => None,
    }
}

/// The fully qualified name of a map entry message: a leading `.`, the package and a
/// `.` if there is a package, the outer message, `.` and the entry.
pub open spec fn fully_qualified_map_type(entry: Seq<char>, outer: Seq<char>, package: Option<Seq<char>>) -> Seq<char> {
    seq!['.'] + (match package {
        Some(p) => p + seq!['.'],
        None => Seq::<char>::empty(),
    }) + outer + seq!['.'] + entry
}

/// The map entries among `nested`, by fully qualified name, later ones replacing
/// earlier ones; none when an entry lacks a name or a typed `key` or `value` field.
pub open spec fn map_data_spec(nested: Seq<MessageDescriptor>, outer: Seq<char>, package: Option<Seq<char>>) -> Option<Map<Seq<char>, MapEntryData>>
    decreases nested.len(),
{
    if nested.len() == 0 {
        Some(Map::empty())
    } else {
        match map_data_spec(nested.drop_last(), outer, package) {
            None => None,
            Some(m) => {
                let n = nested.last();
                if !is_map_entry(n) {
                    Some(m)
                } else {
                    match (entry_types(n), n.name) {
                        (Some(e), Some(name)) => Some(m.insert(fully_qualified_map_type(name@, outer, package), e)),
                        _ => None,
                    }
                }
            },
        }
    }
}

/// The name overlays are looked up by: package, `.` and name, when both are known.
pub open spec fn full_name_spec(package: Option<Seq<char>>, name: Option<String>) -> Option<Seq<char>> {
    match (package, name) {
        (Some(p), Some(n)) => Some(p + seq!['.'] + n@),
        _ => None,
    }
}

/// The overlays configured for `target`; none when there is no target.
pub open spec fn overlays_for(overlays: OverlayConfig, target: Option<Seq<char>>) -> Map<Seq<char>, serde_yaml::Value> {
    match target {
        Some(t) => if overlays.by_target_view().contains_key(t) {
            overlays.by_target_view()[t]
        } else {
            Map::empty()
        },
        None => Map::empty(),
    }
}

/// Whether each of `fields` has a context.
pub open spec fn fields_ok(
    fields: Seq<FieldDescriptor>,
    package: Option<Seq<char>>,
    map_data: Map<Seq<char>, MapEntryData>,
    config: RendererConfig,
) -> bool {
    forall|j: int| 0 <= j < fields.len() ==> (#[trigger] field_model(fields[j], package, map_data, config)) is Some
}

/// What the context of `message` in `package` holds; none when the message has no
/// name, a map entry cannot be read, or a field has no context.
#[verifier::opaque]
pub open spec fn message_model(message: MessageDescriptor, package: Option<Seq<char>>, config: RendererConfig) -> Option<MessageModel> {
    match message.name {
        None => None,
        Some(n) => match map_data_spec(message.nested_type@, n@, package) {
            None => None,
            Some(md) => if fields_ok(message.field@, package, md, config) {
                Some(MessageModel {
                    name: config.case_config.message_name.renamed(n@),
                    fields: Seq::new(message.field@.len(), |j: int| field_model(message.field@[j], package, md, config).unwrap()),
                    overlays: overlays_for(config.overlays, full_name_spec(package, message.name)),
                })
            } else {
                None
            },
        },
    }
}

/// Whether two optional message options hold the same values.
pub open spec fn same_opt_message_options(a: Option<MessageOptions>, b: Option<MessageOptions>) -> bool {
    match (a, b) {
        (None, None) => true,
        (Some(x), Some(y)) => same_message_options(x, y),
        _ => false,
    }
}

/// What a renderer is told of a message.
#[derive(Clone)]
pub struct MessageContext {
    name: String,
    fields: Vec<FieldContext>,
    options: Option<MessageOptions>,
    overlays: StrMap<serde_yaml::Value>,
}

impl View for MessageContext {
    type V = MessageModel;

    closed spec fn view(&self) -> MessageModel {
        MessageModel {
            name: self.name@,
            fields: self.fields@.map_values(|f: FieldContext| f@),
            overlays: self.overlays@,
        }
    }
}

/// The type of the first of `fields` named `name`; an error when there is no such
/// field or it has no type.
fn find_field_type(name: &str, fields: &Vec<FieldDescriptor>) -> (r: Result<ProtoType, Error>)
    ensures
        r is Ok <==> (first_field_named(fields@, name@) matches Some(f) && proto_type_of(f) is Some),
        r matches Ok(t) ==> Some(t) == proto_type_of(first_field_named(fields@, name@).unwrap()),
{
    let mut i: usize = 0;
    assert(fields@.skip(0) =~= fields@);
    while i < fields.len()
        invariant
            i <= fields@.len(),
            first_field_named(fields@, name@) == first_field_named(fields@.skip(i as int), name@),
        decreases fields.len() - i,
    {
        assert(fields@.skip(i as int)[0] == fields@[i as int]);
        assert(fields@.skip(i as int).skip(1) =~= fields@.skip(i + 1));
        if let Some(n) = &fields[i].name {
            if str_eq(n.as_str(), name) {
                return ProtoType::from_field(&fields[i]);
            }
        }
        i = i + 1;
    }
    Err(Error::MissingMapField(name.to_owned()))
}

/// The key and value types of a map entry message.
fn find_map_key_value(entry: &MessageDescriptor) -> (r: Result<(ProtoType, ProtoType), Error>)
    ensures
        r is Ok <==> entry_types(*entry) is Some,
        r matches Ok((k, v)) ==> entry_types(*entry) == Some(MapEntryData { key: k, value: v }),
{
    proof {
        reveal_strlit("key");
        reveal_strlit("value");
    }
    let key = match find_field_type("key", &entry.field) {
        Ok(k) => k,
        Err(e) => return Err(e),
    };
    let value = match find_field_type("value", &entry.field) {
        Ok(v) => v,
        Err(e) => return Err(e),
    };
    Ok((key, value))
}

/// The fully qualified name of a map entry message.
pub fn fully_qualify_map_type(entry: &str, outer: &str, package: Option<&str>) -> (r: String)
    ensures
        r@ == fully_qualified_map_type(entry@, outer@, opt_str(package)),
{
    let mut r = String::new();
    push_char(&mut r, '.');
    if let Some(p) = package {
        r.append(p);
        push_char(&mut r, '.');
    }
    r.append(outer);
    push_char(&mut r, '.');
    r.append(entry);
    assert(r@ =~= fully_qualified_map_type(entry@, outer@, opt_str(package)));
    r
}

/// The map entries nested in `message`, by fully qualified name.
pub fn collect_map_data(message: &MessageDescriptor, package: Option<&str>) -> (r: Result<StrMap<MapEntryData>, Error>)
    ensures
        r is Ok <==> (message.name matches Some(n) && map_data_spec(message.nested_type@, n@, opt_str(package)) is Some),
        r matches Ok(m) ==> map_data_spec(message.nested_type@, message.name.unwrap()@, opt_str(package)) == Some(m@),
{
    let outer = match str_or_error(&message.name, "collect_map_data: No message name.") {
        Ok(n) => n,
        Err(e) => return Err(e),
    };
    let nested = &message.nested_type;
    let mut map_data: StrMap<MapEntryData> = StrMap::new();
    let mut i: usize = 0;
    assert(nested@.take(0) =~= Seq::<MessageDescriptor>::empty());
    while i < nested.len()
        invariant
            i <= nested@.len(),
            nested@ == message.nested_type@,
            message.name is Some && message.name.unwrap()@ == outer@,
            map_data_spec(nested@.take(i as int), outer@, opt_str(package)) == Some(map_data@),
        decreases nested.len() - i,
    {
        let n = &nested[i];
        assert(nested@.take(i + 1).drop_last() =~= nested@.take(i as int));
        assert(nested@.take(i + 1).last() == nested@[i as int]);
        let is_map = match &n.options {
            None => false,
            Some(o) => match o.map_entry {
                None => false,
                Some(b) => b,
            },
        };
        assert(is_map == is_map_entry(*n));
        if is_map {
            let (key, value) = match find_map_key_value(n) {
                Ok(kv) => kv,
                Err(e) => {
                    proof {
                        assert(map_data_spec(nested@.take(i + 1), outer@, opt_str(package)) is None);
                        lemma_map_data_stays_none(nested@, i as int + 1, outer@, opt_str(package));
                        assert(message.name.unwrap()@ == outer@);
                    }
                    return Err(e);
                },
            };
            let name = match &n.name {
                Some(name) => name,
                None => {
                    proof {
                        assert(map_data_spec(nested@.take(i + 1), outer@, opt_str(package)) is None);
                        lemma_map_data_stays_none(nested@, i as int + 1, outer@, opt_str(package));
                        assert(message.name.unwrap()@ == outer@);
                    }
                    return Err(Error::Missing(str_or_unknown(&message.name).to_owned()));
                },
            };
            let qualified = fully_qualify_map_type(name.as_str(), outer, package);
            map_data.insert(qualified, MapEntryData { key, value });
        }
        i = i + 1;
    }
    assert(nested@.take(nested@.len() as int) =~= nested@);
    Ok(map_data)
}

/// Once reading the map entries fails, it fails for every longer list.
proof fn lemma_map_data_stays_none(nested: Seq<MessageDescriptor>, i: int, outer: Seq<char>, package: Option<Seq<char>>)
    requires
        0 <= i <= nested.len(),
        map_data_spec(nested.take(i), outer, package) is None,
    ensures
        map_data_spec(nested, outer, package) is None,
    decreases nested.len() - i,
{
    if i < nested.len() {
        assert(nested.take(i + 1).drop_last() =~= nested.take(i));
        lemma_map_data_stays_none(nested, i + 1, outer, package);
    } else {
        assert(nested.take(i) =~= nested);
    }
}

fn clone_opt_message_options(o: &Option<MessageOptions>) -> (r: Option<MessageOptions>)
    ensures
        same_opt_message_options(r, *o),
{
    match o {
        None => None,
        Some(o) => Some(o.clone()),
    }
}

/// The name overlays are looked up by: package, `.` and name, when both are known.
pub fn full_name(package: Option<&str>, name: &Option<String>) -> (r: Option<String>)
    ensures
        opt_text_of(r) == full_name_spec(opt_str(package), *name),
{
    match (package, name) {
        (Some(p), Some(n)) => {
            let mut r = p.to_owned();
            push_char(&mut r, '.');
            r.append(n.as_str());
            Some(r)
        },
        _ => None,
    }
}

/// The text of an optional string.
pub open spec fn opt_text_of(o: Option<String>) -> Option<Seq<char>> {
    match o {
        Some(s) => Some(s@),
        None => None,
    }
}

impl MessageContext {
    /// The context of `message` in `package`: its name in message case, a context for
    /// each field (map fields recognized by the nested map entry messages), and the
    /// overlays configured for `package.name`. An error when the message has no name,
    /// a map entry cannot be read, or a field has no context.
    pub fn new(message: &MessageDescriptor, package: Option<&str>, config: &RendererConfig) -> (r: Result<MessageContext, Error>)
        ensures
            r is Ok <==> message_model(*message, opt_str(package), *config) is Some,
            r matches Ok(c) ==> Some(c@) == message_model(*message, opt_str(package), *config)
                && same_opt_message_options(c.options_view(), message.options),
    {
        proof {
            reveal(message_model);
        }
        let raw_name = match str_or_error(&message.name, "Message has no 'name'") {
            Ok(n) => n,
            Err(e) => return Err(e),
        };
        let name = config.case_config.message_name.rename(raw_name);
        let map_data = match collect_map_data(message, package) {
            Ok(m) => m,
            Err(e) => return Err(e),
        };
        let ghost md = map_data@;
        let ghost pkg = opt_str(package);
        let mut fields: Vec<FieldContext> = Vec::new();
        let mut i: usize = 0;
        while i < message.field.len()
            invariant
                i <= message.field@.len(),
                md == map_data@,
                pkg == opt_str(package),
                message.name is Some,
                map_data_spec(message.nested_type@, message.name.unwrap()@, pkg) == Some(md),
                fields@.len() == i,
                forall|j: int| 0 <= j < i ==> (#[trigger] field_model(message.field@[j], pkg, md, *config)) is Some
                    && Some(fields@[j]@) == field_model(message.field@[j], pkg, md, *config),
            decreases message.field.len() - i,
        {
            let field = match FieldContext::new(&message.field[i], package, &map_data, config) {
                Ok(f) => f,
                Err(e) => {
                    assert(!fields_ok(message.field@, pkg, md, *config)) by {
                        assert(field_model(message.field@[i as int], pkg, md, *config) is None);
                    }
                    assert(map_data_spec(message.nested_type@, message.name.unwrap()@, pkg) == Some(md));
                    assert(message_model(*message, pkg, *config) is None) by {
                        reveal(message_model);
                    }
                    return Err(e);
                },
            };
            fields.push(field);
            i = i + 1;
        }
        let target = full_name(package, &message.name);
        let overlays = config.overlays.by_target_opt_clone(&target);
        let c = MessageContext {
            name,
            fields,
            options: clone_opt_message_options(&message.options),
            overlays,
        };
        assert(c@.fields =~= Seq::new(message.field@.len(), |j: int| field_model(message.field@[j], pkg, md, *config).unwrap()));
        Ok(c)
    }

    /// The options of the message.
    pub closed spec fn options_view(&self) -> Option<MessageOptions> {
        self.options
    }

    /// The message's name, in message case.
    pub fn name(&self) -> (r: &str)
        ensures
            r@ == self@.name,
    {
        self.name.as_str()
    }

    /// The contexts of the message's fields, in order.
    pub fn fields(&self) -> (r: &Vec<FieldContext>)
        ensures
            r@.map_values(|f: FieldContext| f@) == self@.fields,
    {
        &self.fields
    }

    /// The message's options.
    pub fn options(&self) -> (r: &Option<MessageOptions>)
        ensures
            *r == self.options_view(),
    {
        &self.options
    }

    /// The overlays configured for the message.
    pub fn overlays(&self) -> (r: &StrMap<serde_yaml::Value>)
        ensures
            r@ == self@.overlays,
    {
        &self.overlays
    }

    /// The overlay value configured for the message under `key`.
    pub fn overlay(&self, key: &str) -> (r: Option<&serde_yaml::Value>)
        ensures
            r matches Some(v) ==> self@.overlays.contains_key(key@) && self@.overlays[key@] == *v,
            r is None ==> !self@.overlays.contains_key(key@),
    {
        self.overlays.get(key)
    }
}

} // verus!
