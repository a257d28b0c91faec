//! What the zero-copy readers that `FankorZeroCopy` derives look at: where
//! a struct's fields start and by which names they are known, and by which
//! flag byte an enum's variants are recognized.
use vstd::prelude::*;

use crate::discriminants::{
    enum_codes_fit, enum_codes_spec, enum_discriminant_codes, law_enum_codes_strictly_increasing,
    CodeError, CodeErrorKind,
};
use crate::naming::{pascal_case, snake_to_pascal};
use crate::syntax::{FieldsShape, VariantInfo};
use crate::type_options::{type_options, type_options_spec, OptionsKind, TypeAttribute, TypeOptions, TypeOptionsError};

verus! {

/// The zero-copy reader of a struct.
pub struct ZeroCopyStructPlan {
    /// The bytes before the first field: 1 for the discriminant of an
    /// account, else 0.
    pub extra_offset: usize,
    /// The fields in order: each field's name, and the Pascal-case name of
    /// its variant in the enum that lists the fields.
    pub fields: Vec<(String, String)>,
}

/// Whether `r` is the zero-copy plan of a struct with attributes `attrs`
/// and named fields `names`: the `fankor` attribute is read as for a struct
/// (`account = <ident>` accepted, `accounts` refused).
pub open spec fn zero_copy_struct_outcome(
    attrs: Seq<TypeAttribute>,
    names: Seq<String>,
    r: Result<ZeroCopyStructPlan, TypeOptionsError>,
) -> bool {
    match type_options_spec(attrs, OptionsKind::Struct) {
        Err(f) => r matches Err(e) && e@ == f,
        Ok(o) => r matches Ok(p) && {
            &&& p.extra_offset == (if o.0 is Some {
                1usize
            } else {
                0usize
            })
            &&& p.fields@.len() == names.len()
            &&& forall|i: int|
                0 <= i < names.len() ==> (#[trigger] p.fields@[i]).0@ == names[i]@ && p.fields@[i].1@
                    == snake_to_pascal(names[i]@)
        },
    }
}

/// Plans the zero-copy reader of a struct from its attributes and the names
/// of its fields.
pub fn zero_copy_struct_plan(attrs: Vec<TypeAttribute>, field_names: &Vec<String>) -> (r: Result<
    ZeroCopyStructPlan,
    TypeOptionsError,
>)
    ensures
        zero_copy_struct_outcome(attrs@, field_names@, r),
{
    let options = type_options(attrs, OptionsKind::Struct);
    let TypeOptions { account, accounts: _ } = match options {
        Ok(o) => o,
        Err(e) => return Err(e),
    };
    let extra_offset: usize = if account.is_some() {
        1
    } else {
        0
    };
    let mut fields: Vec<(String, String)> = Vec::new();
    let mut i: usize = 0;
    while i < field_names.len()
        invariant
            0 <= i <= field_names@.len(),
            fields@.len() == i,
            forall|k: int|
                0 <= k < i ==> (#[trigger] fields@[k]).0@ == field_names@[k]@ && fields@[k].1@
                    == snake_to_pascal(field_names@[k]@),
        decreases field_names@.len() - i,
    {
        let pascal = pascal_case(field_names[i].as_str());
        fields.push((field_names[i].clone(), pascal));
        i = i + 1;
    }
    Ok(ZeroCopyStructPlan { extra_offset, fields })
}

/// The zero-copy reader of an enum.
pub struct ZeroCopyEnumPlan {
    /// The bytes counted before a variant's fields: 0 for a list of
    /// accounts, whose accounts each start with their own code, else 1.
    pub initial_size: usize,
    /// Whether every variant is a unit variant; the enum is then its own
    /// zero-copy reader.
    pub all_unit: bool,
    /// The size that reading a variant starts from: 1 when every variant is
    /// a unit variant, else `initial_size`.
    pub size_base: usize,
    /// For each variant, the flag byte by which reading the enum recognizes
    /// it: its position when every variant is a unit variant, else its code.
    pub new_flags: Vec<u8>,
    /// For each variant, the flag byte by which measuring the enum
    /// recognizes it: its code.
    pub size_flags: Vec<u8>,
    /// For each variant with fields, the size that its minimum starts from:
    /// 1 for named fields, `initial_size` for unnamed ones; none for a unit
    /// variant.
    pub min_bases: Vec<Option<usize>>,
}

/// Why the zero-copy reader of an enum is refused.
#[derive(Debug, Clone, PartialEq, Eq)]
pub enum ZeroCopyError {
    /// The `fankor` attribute is refused.
    Options(TypeOptionsError),
    /// The variants cannot be numbered.
    Codes(CodeError),
}

/// Whether every variant is a unit variant.
pub open spec fn all_unit_spec(variants: Seq<VariantInfo>) -> bool {
    forall|i: int| 0 <= i < variants.len() ==> (#[trigger] variants[i]).fields is Unit
}

/// The size that the minimum of a variant starts from.
pub open spec fn min_base_spec(fields: FieldsShape, initial_size: usize) -> Option<usize> {
    match fields {
        FieldsShape::Named(_) => Some(1usize),
        FieldsShape::Unnamed(_) => Some(initial_size),
        FieldsShape::Unit => None,
    }
}

/// Whether `r` is the zero-copy plan of an enum with attributes `attrs` and
/// variants `variants`: the `fankor` attribute is read for a zero-copy enum
/// (`accounts` accepted, `account` refused), then the variants are
/// numbered as `EnumDiscriminants` numbers them.
pub open spec fn zero_copy_enum_outcome(
    attrs: Seq<TypeAttribute>,
    variants: Seq<VariantInfo>,
    r: Result<ZeroCopyEnumPlan, ZeroCopyError>,
) -> bool {
    match type_options_spec(attrs, OptionsKind::ZeroCopyEnum) {
        Err(f) => r matches Err(ZeroCopyError::Options(e)) && e@ == f,
        Ok(o) => match enum_codes_spec(variants) {
            Err((i, k)) => r matches Err(ZeroCopyError::Codes(e)) && e.index == i && e.kind == k,
            Ok(codes) => r matches Ok(p) && enum_plan_holds(p, variants, codes, o.1),
        },
    }
}

/// Whether `p` reads the variants `variants`, numbered `codes`, of an enum
/// that is a list of accounts exactly when `accounts`.
pub open spec fn enum_plan_holds(p: ZeroCopyEnumPlan, variants: Seq<VariantInfo>, codes: Seq<int>, accounts: bool) -> bool {
    let initial: usize = if accounts {
        0
    } else {
        1
    };
    &&& p.initial_size == initial
    &&& p.all_unit == all_unit_spec(variants)
    &&& p.size_base == (if p.all_unit {
        1usize
    } else {
        initial
    })
    &&& p.size_flags@.len() == variants.len()
    &&& p.new_flags@.len() == variants.len()
    &&& p.min_bases@.len() == variants.len()
    &&& forall|i: int|
        0 <= i < variants.len() ==> {
            &&& (#[trigger] p.size_flags@[i]) == codes[i]
            &&& p.new_flags@[i] == (if p.all_unit {
                i
            } else {
                codes[i]
            })
            &&& p.min_bases@[i] == min_base_spec(variants[i].fields, initial)
        }
}

proof fn lemma_increasing_from_zero(s: Seq<int>, i: int)
    requires
        forall|a: int, b: int| 0 <= a < b < s.len() ==> s[a] < s[b],
        forall|a: int| 0 <= a < s.len() ==> 0 <= #[trigger] s[a],
        0 <= i < s.len(),
    ensures
        s[i] >= i,
    decreases i,
{
    if i > 0 {
        lemma_increasing_from_zero(s, i - 1);
    }
}

/// Plans the zero-copy reader of an enum from its attributes and variants.
pub fn zero_copy_enum_plan(attrs: Vec<TypeAttribute>, variants: &Vec<VariantInfo>) -> (r: Result<
    ZeroCopyEnumPlan,
    ZeroCopyError,
>)
    requires
        type_options_spec(attrs@, OptionsKind::ZeroCopyEnum) is Ok ==> enum_codes_fit(variants@),
    ensures
        zero_copy_enum_outcome(attrs@, variants@, r),
{
    let ghost attrs_view = attrs@;
    let options = type_options(attrs, OptionsKind::ZeroCopyEnum);
    let TypeOptions { account: _, accounts } = match options {
        Ok(o) => o,
        Err(e) => return Err(ZeroCopyError::Options(e)),
    };
    let codes = match enum_discriminant_codes(variants) {
        Ok(c) => c,
        Err(e) => return Err(ZeroCopyError::Codes(e)),
    };
    let ghost cs = codes@.map_values(|c: u8| c as int);
    proof {
        law_enum_codes_strictly_increasing(variants@);
    }
    let initial_size: usize = if accounts {
        0
    } else {
        1
    };
    let mut all_unit = true;
    let mut i: usize = 0;
    while i < variants.len()
        invariant
            0 <= i <= variants@.len(),
            all_unit == forall|k: int| 0 <= k < i ==> (#[trigger] variants@[k]).fields is Unit,
        decreases variants@.len() - i,
    {
        if !matches!(variants[i].fields, FieldsShape::Unit) {
            all_unit = false;
        }
        i = i + 1;
    }
    let size_base: usize = if all_unit {
        1
    } else {
        initial_size
    };
    let mut new_flags: Vec<u8> = Vec::new();
    let mut min_bases: Vec<Option<usize>> = Vec::new();
    let mut j: usize = 0;
    while j < variants.len()
        invariant
            0 <= j <= variants@.len(),
            codes@.len() == variants@.len(),
            cs == codes@.map_values(|c: u8| c as int),
            forall|a: int, b: int| 0 <= a < b < cs.len() ==> cs[a] < cs[b],
            new_flags@.len() == j,
            min_bases@.len() == j,
            forall|k: int|
                0 <= k < j ==> (#[trigger] new_flags@[k]) == (if all_unit {
                    k
                } else {
                    codes@[k] as int
                }) && min_bases@[k] == min_base_spec(variants@[k].fields, initial_size),
        decreases variants@.len() - j,
    {
        if all_unit {
            proof {
                assert forall|a: int| 0 <= a < cs.len() implies 0 <= #[trigger] cs[a] by {}
                lemma_increasing_from_zero(cs, j as int);
                assert(cs[j as int] == codes@[j as int] as int);
            }
            new_flags.push(j as u8);
        } else {
            new_flags.push(codes[j]);
        }
        let base = match &variants[j].fields {
            FieldsShape::Named(_) => Some(1usize),
            FieldsShape::Unnamed(_) => Some(initial_size),
            FieldsShape::Unit => None,
        };
        min_bases.push(base);
        j = j + 1;
    }
    proof {
        assert(all_unit == all_unit_spec(variants@));
        assert(enum_codes_spec(variants@) == Ok::<Seq<int>, (int, CodeErrorKind)>(cs));
        assert forall|k: int| 0 <= k < variants@.len() implies (#[trigger] codes@[k]) == cs[k] by {}
        assert(type_options_spec(attrs_view, OptionsKind::ZeroCopyEnum) matches Ok(o) && o.1 == accounts);
        assert forall|k: int| 0 <= k < variants@.len() implies {
            &&& (#[trigger] codes@[k]) == cs[k]
            &&& new_flags@[k] == (if all_unit {
                k
            } else {
                cs[k]
            })
            &&& min_bases@[k] == min_base_spec(variants@[k].fields, initial_size)
        } by {}
    }
    let p = ZeroCopyEnumPlan { initial_size, all_unit, size_base, new_flags, size_flags: codes, min_bases };
    assert(enum_plan_holds(p, variants@, cs, accounts));
    Ok(p)
}

} // verus!
