//! What the TypeScript bindings that `TsGen` derives are made of: the
//! account whose code a struct starts with, the camel-case names of the
//! fields, and for an enum the interface and the shape of each variant.
use vstd::prelude::*;

use crate::naming::{camel_case, snake_to_camel, ts_field_names};
use crate::syntax::{FieldsShape, VariantInfo};
use crate::type_options::{type_options, type_options_spec, OptionsKind, TypeAttribute, TypeOptions, TypeOptionsError};

verus! {

/// The TypeScript class of a struct.
pub struct TsStructPlan {
    /// The accounts-discriminant enum whose code the schema reads first.
    pub account: Option<String>,
    /// The fields' names in camel case, in order.
    pub fields: Vec<String>,
}

/// Whether `r` is the TypeScript plan of a struct with attributes `attrs`
/// and named fields `names`: the `fankor` attribute is read as for a struct.
pub open spec fn ts_struct_outcome(attrs: Seq<TypeAttribute>, names: Seq<String>, r: Result<TsStructPlan, TypeOptionsError>) -> bool {
    match type_options_spec(attrs, OptionsKind::Struct) {
        Err(f) => r matches Err(e) && e@ == f,
        Ok(o) => r matches Ok(p) && {
            &&& (match p.account {
                Some(a) => Some(a@),
                None => None,
            }) == o.0
            &&& p.fields@.len() == names.len()
            &&& forall|i: int| 0 <= i < names.len() ==> (#[trigger] p.fields@[i])@ == snake_to_camel(names[i]@)
        },
    }
}

/// Plans the TypeScript class of a struct from its attributes and the
/// names of its fields.
pub fn ts_struct_plan(attrs: Vec<TypeAttribute>, field_names: &Vec<String>) -> (r: Result<TsStructPlan, TypeOptionsError>)
    ensures
        ts_struct_outcome(attrs@, field_names@, r),
{
    let options = type_options(attrs, OptionsKind::Struct);
    let TypeOptions { account, accounts: _ } = match options {
        Ok(o) => o,
        Err(e) => return Err(e),
    };
    let fields = ts_field_names(field_names);
    Ok(TsStructPlan { account, fields })
}

/// How a variant of an enum appears in TypeScript.
pub enum TsVariantShape {
    /// Named fields, by their camel-case names, as a structure.
    Named(Vec<String>),
    /// A single unnamed field, as the variant's value.
    Single,
    /// No value.
    Unit,
}

/// A variant of an enum in TypeScript.
pub struct TsVariantPlan {
    /// The variant's name, its `type` tag.
    pub name: String,
    /// The interface of the variant: the enum's name, `_` and the variant's.
    pub interface_name: String,
    /// Its value.
    pub shape: TsVariantShape,
}

/// The TypeScript class of an enum.
pub struct TsEnumPlan {
    /// Whether the enum is a list of accounts, whose schema is an account enum.
    pub accounts: bool,
    /// The variants, in order.
    pub variants: Vec<TsVariantPlan>,
}

/// Why the TypeScript class of an enum is refused.
#[derive(Debug, Clone, PartialEq, Eq)]
pub enum TsGenError {
    /// The `fankor` attribute is refused.
    Options(TypeOptionsError),
    /// The variant (by source) has unnamed fields, but not exactly one.
    UnnamedNotSingle(usize),
}

/// Whether a variant can be written in TypeScript.
pub open spec fn ts_shape_ok(v: VariantInfo) -> bool {
    v.fields matches FieldsShape::Unnamed(n) ==> n == 1
}

/// Whether the variant at `i` is the first that cannot be written.
pub open spec fn first_bad_ts_variant(vs: Seq<VariantInfo>, i: int) -> bool {
    &&& 0 <= i < vs.len()
    &&& !ts_shape_ok(vs[i])
    &&& forall|k: int| 0 <= k < i ==> ts_shape_ok(#[trigger] vs[k])
}

/// Whether `p` is the TypeScript form of the variant `v` of the enum `name`.
pub open spec fn ts_variant_holds(p: TsVariantPlan, name: Seq<char>, v: VariantInfo) -> bool {
    &&& p.name@ == v.name@
    &&& p.interface_name@ == name + "_"@ + v.name@
    &&& match v.fields {
        FieldsShape::Named(fs) => p.shape matches TsVariantShape::Named(ns) && ns@.len() == fs@.len() && forall|k: int|
            0 <= k < fs@.len() ==> (#[trigger] ns@[k])@ == snake_to_camel(fs@[k]@),
        FieldsShape::Unnamed(_) => p.shape is Single,
        FieldsShape::Unit => p.shape is Unit,
    }
}

/// Whether `r` is the TypeScript plan of the enum `name` with attributes
/// `attrs` and variants `vs`: the `fankor` attribute is read for a
/// TypeScript enum (`accounts` accepted, `account = <ident>` refused), then
/// the variants in order.
pub open spec fn ts_enum_outcome(
    name: Seq<char>,
    attrs: Seq<TypeAttribute>,
    vs: Seq<VariantInfo>,
    r: Result<TsEnumPlan, TsGenError>,
) -> bool {
    match type_options_spec(attrs, OptionsKind::TsGenEnum) {
        Err(f) => r matches Err(TsGenError::Options(e)) && e@ == f,
        Ok(o) => if exists|i: int| first_bad_ts_variant(vs, i) {
            r == Err::<TsEnumPlan, TsGenError>(
                TsGenError::UnnamedNotSingle(vs[choose|i: int| first_bad_ts_variant(vs, i)].source),
            )
        } else {
            r matches Ok(p) && {
                &&& p.accounts == o.1
                &&& p.variants@.len() == vs.len()
                &&& forall|i: int| 0 <= i < vs.len() ==> ts_variant_holds(#[trigger] p.variants@[i], name, vs[i])
            }
        },
    }
}

fn camel_names(names: &Vec<String>) -> (r: Vec<String>)
    ensures
        r@.len() == names@.len(),
        forall|k: int| 0 <= k < names@.len() ==> (#[trigger] r@[k])@ == snake_to_camel(names@[k]@),
{
    let mut out: Vec<String> = Vec::new();
    let mut k: usize = 0;
    while k < names.len()
        invariant
            0 <= k <= names@.len(),
            out@.len() == k,
            forall|j: int| 0 <= j < k ==> (#[trigger] out@[j])@ == snake_to_camel(names@[j]@),
        decreases names@.len() - k,
    {
        out.push(camel_case(names[k].as_str()));
        k = k + 1;
    }
    out
}

/// Plans the TypeScript class of the enum `name` from its attributes and
/// its variants.
pub fn ts_enum_plan(name: &String, attrs: Vec<TypeAttribute>, variants: &Vec<VariantInfo>) -> (r: Result<TsEnumPlan, TsGenError>)
    ensures
        ts_enum_outcome(name@, attrs@, variants@, r),
{
    let ghost attrs_view = attrs@;
    let options = type_options(attrs, OptionsKind::TsGenEnum);
    let TypeOptions { account: _, accounts } = match options {
        Ok(o) => o,
        Err(e) => return Err(TsGenError::Options(e)),
    };
    let mut plans: Vec<TsVariantPlan> = Vec::new();
    let mut i: usize = 0;
    while i < variants.len()
        invariant
            0 <= i <= variants@.len(),
            attrs_view == attrs@,
            type_options_spec(attrs_view, OptionsKind::TsGenEnum) matches Ok(o) && o.1 == accounts,
            plans@.len() == i,
            forall|k: int| 0 <= k < i ==> ts_shape_ok(#[trigger] variants@[k]),
            forall|k: int| 0 <= k < i ==> ts_variant_holds(#[trigger] plans@[k], name@, variants@[k]),
        decreases variants@.len() - i,
    {
        let v = &variants[i];
        let shape = match &v.fields {
            FieldsShape::Named(fs) => TsVariantShape::Named(camel_names(fs)),
            FieldsShape::Unnamed(n) => {
                if *n != 1 {
                    proof {
                        assert(first_bad_ts_variant(variants@, i as int));
                        assert forall|j: int| #[trigger] first_bad_ts_variant(variants@, j) implies j == i by {
                            if j < i {
                                assert(ts_shape_ok(variants@[j]));
                            } else if j > i {
                                assert(ts_shape_ok(variants@[i as int]));
                            }
                        }
                        assert((choose|j: int| first_bad_ts_variant(variants@, j)) == i);
                    }
                    return Err(TsGenError::UnnamedNotSingle(v.source));
                }
                TsVariantShape::Single
            },
            FieldsShape::Unit => TsVariantShape::Unit,
        };
        let underscore = "_";
        proof {
            reveal_strlit("_");
        }
        let interface_name = name.clone().concat(underscore).concat(v.name.as_str());
        plans.push(TsVariantPlan { name: v.name.clone(), interface_name, shape });
        i = i + 1;
    }
    proof {
        assert forall|j: int| !first_bad_ts_variant(variants@, j) by {
            if 0 <= j < variants@.len() {
                assert(ts_shape_ok(variants@[j]));
            }
        }
    }
    Ok(TsEnumPlan { accounts, variants: plans })
}

} // verus!
