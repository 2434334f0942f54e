//! What a renderer is told of an enum and of its values.
use vstd::prelude::*;
use crate::config::RendererConfig;
use crate::descriptor::{same_enum_options, EnumDescriptor, EnumOptions, EnumValueDescriptor, EnumValueOptions};
use crate::error::Error;
use crate::util::{str_or_error, str_or_unknown};

verus! {

/// What an `EnumValueContext` holds.
pub struct EnumValueModel {
    pub name: Seq<char>,
    pub number: i32,
    pub options: Option<EnumValueOptions>,
}

/// What an `EnumContext` holds, but for its options.
pub struct EnumModel {
    pub name: Seq<char>,
    pub values: Seq<EnumValueModel>,
}

/// Whether an enum value has both a name and a number.
pub open spec fn value_ok(v: EnumValueDescriptor) -> bool {
    v.name is Some && v.number is Some
}

/// What the context of an enum value holds: its name in enum value case, its number
/// and its options.
pub open spec fn enum_value_model(v: EnumValueDescriptor, config: RendererConfig) -> EnumValueModel {
    EnumValueModel {
        name: config.case_config.enum_value_name.renamed(v.name.unwrap()@),
        number: v.number.unwrap(),
        options: v.options,
    }
}

/// What the context of `proto` holds; none when the enum has no name or a value lacks a
/// name or a number.
#[verifier::opaque]
pub open spec fn enum_model(proto: EnumDescriptor, config: RendererConfig) -> Option<EnumModel> {
    match proto.name {
        None => None,
        Some(n) => if forall|j: int| 0 <= j < proto.value@.len() ==> value_ok(#[trigger] proto.value@[j]) {
            Some(EnumModel {
                name: config.case_config.enum_name.renamed(n@),
                values: proto.value@.map_values(|v: EnumValueDescriptor| enum_value_model(v, config)),
            })
        } else {
            None
        },
    }
}

/// Whether two optional enum options hold the same values.
pub open spec fn same_opt_enum_options(a: Option<EnumOptions>, b: Option<EnumOptions>) -> bool {
    match (a, b) {
        (None, None) => true,
        (Some(x), Some(y)) => same_enum_options(x, y),
        _ => false,
    }
}

/// What a renderer is told of an enum value.
#[derive(Clone)]
pub struct EnumValueContext {
    name: String,
    number: i32,
    options: Option<EnumValueOptions>,
}

impl View for EnumValueContext {
    type V = EnumValueModel;

    closed spec fn view(&self) -> EnumValueModel {
        EnumValueModel { name: self.name@, number: self.number, options: self.options }
    }
}

impl EnumValueContext {
    /// The value's name, in enum value case.
    pub fn name(&self) -> (r: &str)
        ensures
            r@ == self@.name,
    {
        self.name.as_str()
    }

    /// The value's number.
    pub fn number(&self) -> (r: i32)
        ensures
            r == self@.number,
    {
        self.number
    }

    /// The value's options.
    pub fn options(&self) -> (r: &Option<EnumValueOptions>)
        ensures
            *r == self@.options,
    {
        &self.options
    }
}

/// What a renderer is told of an enum.
#[derive(Clone)]
pub struct EnumContext {
    name: String,
    values: Vec<EnumValueContext>,
    options: Option<EnumOptions>,
}

impl View for EnumContext {
    type V = EnumModel;

    closed spec fn view(&self) -> EnumModel {
        EnumModel { name: self.name@, values: self.values@.map_values(|v: EnumValueContext| v@) }
    }
}

fn clone_opt_value_options(o: &Option<EnumValueOptions>) -> (r: Option<EnumValueOptions>)
    ensures
        r == *o,
{
    match o {
        None => None,
        Some(o) => Some(o.clone()),
    }
}

fn clone_opt_enum_options(o: &Option<EnumOptions>) -> (r: Option<EnumOptions>)
    ensures
        same_opt_enum_options(r, *o),
{
    match o {
        None => None,
        Some(o) => Some(o.clone()),
    }
}

impl EnumContext {
    /// The context of `proto`: its name in enum case and its values with names in enum
    /// value case. An error when the enum has no name, or a value lacks a name or a
    /// number; the latter names the enum.
    pub fn new(proto: &EnumDescriptor, config: &RendererConfig) -> (r: Result<EnumContext, Error>)
        ensures
            r is Ok <==> enum_model(*proto, *config) is Some,
            r matches Ok(c) ==> Some(c@) == enum_model(*proto, *config)
                && same_opt_enum_options(c.options_view(), proto.options),
            r matches Err(e) ==> (if proto.name is None {
                e matches Error::Missing(_)
            } else {
                e matches Error::InvalidEnumValue(s) && s@ == proto.name.unwrap()@
            }),
    {
        proof {
            reveal(enum_model);
        }
        let raw_name = match str_or_error(&proto.name, "Enum has no 'name'") {
            Ok(n) => n,
            Err(e) => return Err(e),
        };
        let name = config.case_config.enum_name.rename(raw_name);
        let mut values: Vec<EnumValueContext> = Vec::new();
        let mut i: usize = 0;
        while i < proto.value.len()
            invariant
                i <= proto.value@.len(),
                proto.name is Some,
                values@.len() == i,
                forall|j: int| 0 <= j < i ==> value_ok(#[trigger] proto.value@[j])
                    && values@[j]@ == enum_value_model(proto.value@[j], *config),
            decreases proto.value.len() - i,
        {
            let v = &proto.value[i];
            let (value_name, number) = match (&v.name, v.number) {
                (Some(n), Some(number)) => (n, number),
                _ => {
                    proof {
                        reveal(enum_model);
                        assert(!value_ok(proto.value@[i as int]));
                    }
                    return Err(Error::InvalidEnumValue(str_or_unknown(&proto.name).to_owned()));
                },
            };
            values.push(EnumValueContext {
                name: config.case_config.enum_value_name.rename(value_name.as_str()),
                number,
                options: clone_opt_value_options(&v.options),
            });
            i = i + 1;
        }
        let c = EnumContext { name, values, options: clone_opt_enum_options(&proto.options) };
        assert(c@.values =~= proto.value@.map_values(|v: EnumValueDescriptor| enum_value_model(v, *config)));
        Ok(c)
    }

    /// The options of the enum.
    pub closed spec fn options_view(&self) -> Option<EnumOptions> {
        self.options
    }

    /// The enum's name, in enum case.
    pub fn name(&self) -> (r: &str)
        ensures
            r@ == self@.name,
    {
        self.name.as_str()
    }

    /// The contexts of the enum's values, in order.
    pub fn values(&self) -> (r: &Vec<EnumValueContext>)
        ensures
            r@.map_values(|v: EnumValueContext| v@) == self@.values,
    {
        &self.values
    }

    /// The enum's options.
    pub fn options(&self) -> (r: &Option<EnumOptions>)
        ensures
            *r == self.options_view(),
    {
        &self.options
    }
}

} // verus!
