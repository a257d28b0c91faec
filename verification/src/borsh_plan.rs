//! What the Borsh serializers and deserializers that the framework derives
//! write and read: for each field, whether it goes through Borsh or is
//! skipped (`#[borsh_skip]`), the name it is bound to, whether the account
//! discriminant comes first, and the method named by `#[borsh_init(...)]`.
use vstd::prelude::*;

use crate::syntax::{path_is, path_is_ident, AttrMeta, AttributeInfo};
use crate::type_options::{
    law_struct_serde_agree, type_options, type_options_spec, OptionsKind, TypeAttribute, TypeOptions, TypeOptionsError,
};

verus! {

/// Whether the attribute is `#[borsh_skip]`.
pub open spec fn is_skip_attr(a: AttributeInfo) -> bool {
    a.meta is Path && path_is(a.path@, "borsh_skip"@)
}

/// Whether some attribute is `#[borsh_skip]`.
pub open spec fn skip_spec(attrs: Seq<AttributeInfo>) -> bool {
    exists|i: int| 0 <= i < attrs.len() && #[trigger] is_skip_attr(attrs[i])
}

/// Tells whether the attributes of a field hold `#[borsh_skip]`.
pub fn contains_skip(attrs: &[AttributeInfo]) -> (r: bool)
    ensures
        r == skip_spec(attrs@),
{
    let mut i: usize = 0;
    while i < attrs.len()
        invariant
            0 <= i <= attrs@.len(),
            forall|k: int| 0 <= k < i ==> !is_skip_attr(#[trigger] attrs@[k]),
        decreases attrs@.len() - i,
    {
        if let AttrMeta::Path = &attrs[i].meta {
            if path_is_ident(&attrs[i].path, "borsh_skip") {
                assert(is_skip_attr(attrs@[i as int]));
                return true;
            }
        }
        i = i + 1;
    }
    false
}

/// Whether the attribute is a list attribute `#[borsh_init(...)]`.
pub open spec fn is_init_attr(a: AttributeInfo) -> bool {
    a.meta is List && path_is(a.path@, "borsh_init"@)
}

/// The position of the first `#[borsh_init(...)]` attribute.
pub open spec fn first_init(attrs: Seq<AttributeInfo>) -> Option<int>
    decreases attrs.len(),
{
    if attrs.len() == 0 {
        None
    } else if is_init_attr(attrs[0]) {
        Some(0)
    } else {
        match first_init(attrs.drop_first()) {
            Some(i) => Some(i + 1),
            None => None,
        }
    }
}

/// Whether the arguments of the first `#[borsh_init(...)]` attribute read
/// as a path; the generators panic when they do not.
pub open spec fn init_readable(attrs: Seq<AttributeInfo>) -> bool {
    match first_init(attrs) {
        Some(i) => attrs[i].meta matches AttrMeta::List(_, is_path) && is_path,
        None => true,
    }
}

/// The initializer named by the first `#[borsh_init(...)]` attribute, by the
/// source of that attribute.
pub open spec fn init_spec(attrs: Seq<AttributeInfo>) -> Option<usize> {
    match first_init(attrs) {
        Some(i) => Some(attrs[i].source),
        None => None,
    }
}

/// Finds the method that a derived deserializer calls on the value it
/// built: the path in the first `#[borsh_init(...)]` attribute, given by
/// the source of that attribute.
pub fn contains_initialize_with(attrs: &[AttributeInfo]) -> (r: Option<usize>)
    requires
        init_readable(attrs@),
    ensures
        r == init_spec(attrs@),
{
    let mut i: usize = 0;
    assert(attrs@.skip(0) =~= attrs@);
    while i < attrs.len()
        invariant
            0 <= i <= attrs@.len(),
            first_init(attrs@) == match first_init(attrs@.skip(i as int)) {
                Some(k) => Some(k + i),
                None => None::<int>,
            },
        decreases attrs@.len() - i,
    {
        assert(attrs@.skip(i as int).drop_first() =~= attrs@.skip(i + 1));
        if let AttrMeta::List(_, _) = &attrs[i].meta {
            if path_is_ident(&attrs[i].path, "borsh_init") {
                return Some(attrs[i].source);
            }
        }
        i = i + 1;
    }
    None
}

/// The attributes of a type, without their argument lists.
pub open spec fn infos(attrs: Seq<TypeAttribute>) -> Seq<AttributeInfo> {
    attrs.map_values(|a: TypeAttribute| a.info)
}

fn initializer(attrs: &Vec<TypeAttribute>) -> (r: Option<Option<usize>>)
    ensures
        r == if init_readable(infos(attrs@)) {
            Some(init_spec(infos(attrs@)))
        } else {
            None
        },
{
    let ghost all = infos(attrs@);
    let mut i: usize = 0;
    assert(all.skip(0) =~= all);
    while i < attrs.len()
        invariant
            0 <= i <= attrs@.len(),
            all == infos(attrs@),
            first_init(all) == match first_init(all.skip(i as int)) {
                Some(k) => Some(k + i),
                None => None::<int>,
            },
        decreases attrs@.len() - i,
    {
        assert(all.skip(i as int).drop_first() =~= all.skip(i + 1));
        assert(all.skip(i as int)[0] == attrs@[i as int].info);
        if let AttrMeta::List(_, is_path) = &attrs[i].info.meta {
            if path_is_ident(&attrs[i].info.path, "borsh_init") {
                if *is_path {
                    return Some(Some(attrs[i].info.source));
                }
                return None;
            }
        }
        i = i + 1;
    }
    Some(None)
}

/// The fields of a struct or an enum variant, each with its attributes.
pub enum BorshFields {
    /// Named fields, by name.
    Named(Vec<(String, Vec<AttributeInfo>)>),
    /// Unnamed fields, in order.
    Unnamed(Vec<Vec<AttributeInfo>>),
    /// No fields.
    Unit,
}

/// The name under which a field is reached.
pub enum Binding {
    /// A named field, by its name.
    Named(String),
    /// An unnamed field, by its position.
    Index(usize),
}

/// The view of a `Binding`.
pub enum BindingView {
    /// A named field, by its name.
    Named(Seq<char>),
    /// An unnamed field, by its position.
    Index(nat),
}

impl View for Binding {
    type V = BindingView;

    open spec fn view(&self) -> BindingView {
        match self {
            Binding::Named(n) => BindingView::Named(n@),
            Binding::Index(i) => BindingView::Index(*i as nat),
        }
    }
}

/// How a derived serializer or deserializer treats one field.
pub struct FieldPlan {
    /// The field.
    pub binding: Binding,
    /// Whether the field goes through Borsh; a skipped field is left out
    /// when writing and filled with its default when reading.
    pub transferred: bool,
}

impl View for FieldPlan {
    type V = (BindingView, bool);

    open spec fn view(&self) -> (BindingView, bool) {
        (self.binding@, self.transferred)
    }
}

/// The plans of a list of field plans, seen through views.
pub open spec fn plans_view(plans: Seq<FieldPlan>) -> Seq<(BindingView, bool)> {
    plans.map_values(|p: FieldPlan| p@)
}

/// How the fields are treated: a named field is skipped when it holds
/// `#[borsh_skip]`; an unnamed one too when `skip_unnamed`, else never.
pub open spec fn fields_plan_spec(fields: BorshFields, skip_unnamed: bool) -> Seq<(BindingView, bool)> {
    match fields {
        BorshFields::Named(v) => Seq::new(
            v@.len(),
            |i: int| (BindingView::Named(v@[i].0@), !skip_spec(v@[i].1@)),
        ),
        BorshFields::Unnamed(v) => Seq::new(
            v@.len(),
            |i: int| (BindingView::Index(i as nat), !(skip_unnamed && skip_spec(v@[i]@))),
        ),
        BorshFields::Unit => Seq::empty(),
    }
}

fn fields_plan(fields: &BorshFields, skip_unnamed: bool) -> (r: Vec<FieldPlan>)
    ensures
        plans_view(r@) == fields_plan_spec(*fields, skip_unnamed),
{
    let mut plans: Vec<FieldPlan> = Vec::new();
    match fields {
        BorshFields::Named(v) => {
            let mut i: usize = 0;
            while i < v.len()
                invariant
                    0 <= i <= v@.len(),
                    plans@.len() == i,
                    forall|k: int| 0 <= k < i ==> #[trigger] plans@[k]@ == (
                        BindingView::Named(v@[k].0@),
                        !skip_spec(v@[k].1@),
                    ),
                decreases v@.len() - i,
            {
                let skip = contains_skip(v[i].1.as_slice());
                plans.push(FieldPlan { binding: Binding::Named(v[i].0.clone()), transferred: !skip });
                i = i + 1;
            }
        },
        BorshFields::Unnamed(v) => {
            let mut i: usize = 0;
            while i < v.len()
                invariant
                    0 <= i <= v@.len(),
                    plans@.len() == i,
                    forall|k: int| 0 <= k < i ==> #[trigger] plans@[k]@ == (
                        BindingView::Index(k as nat),
                        !(skip_unnamed && skip_spec(v@[k]@)),
                    ),
                decreases v@.len() - i,
            {
                let skip = skip_unnamed && contains_skip(v[i].as_slice());
                plans.push(FieldPlan { binding: Binding::Index(i), transferred: !skip });
                i = i + 1;
            }
        },
        BorshFields::Unit => {},
    }
    assert(plans_view(plans@) =~= fields_plan_spec(*fields, skip_unnamed));
    plans
}

/// Whether no variant or struct has more unnamed fields than a `u32` counts.
pub open spec fn unnamed_fit(fields: BorshFields) -> bool {
    fields matches BorshFields::Unnamed(v) ==> v@.len() <= 0x1_0000_0000
}

/// The account enum named by the options, as text.
pub open spec fn account_view(a: Option<String>) -> Option<Seq<char>> {
    match a {
        Some(s) => Some(s@),
        None => None,
    }
}

/// Whether the variant plans `plans` treat the variants `variants` as
/// `fields_plan_spec` says.
pub open spec fn variants_planned(plans: Seq<Vec<FieldPlan>>, variants: Seq<BorshFields>, skip_unnamed: bool) -> bool {
    &&& plans.len() == variants.len()
    &&& forall|i: int| 0 <= i < variants.len() ==> plans_view(#[trigger] plans[i]@) == fields_plan_spec(variants[i], skip_unnamed)
}

fn variants_plan(variants: &Vec<BorshFields>) -> (r: Vec<Vec<FieldPlan>>)
    ensures
        variants_planned(r@, variants@, true),
{
    let mut plans: Vec<Vec<FieldPlan>> = Vec::new();
    let mut i: usize = 0;
    while i < variants.len()
        invariant
            0 <= i <= variants@.len(),
            plans@.len() == i,
            forall|k: int| 0 <= k < i ==> plans_view(#[trigger] plans@[k]@) == fields_plan_spec(variants@[k], true),
        decreases variants@.len() - i,
    {
        let p = fields_plan(&variants[i], true);
        plans.push(p);
        i = i + 1;
    }
    plans
}

/// What a derived enum serializer writes.
pub struct EnumSerPlan {
    /// The accounts-discriminant enum whose code for this type comes first.
    pub account: Option<String>,
    /// Whether the variant's code is written before its fields; a list of
    /// accounts leaves it out, as each account starts with its own.
    pub write_variant_index: bool,
    /// For each variant, in order, how its fields are treated.
    pub variants: Vec<Vec<FieldPlan>>,
}

/// Whether `r` is what the serializer plan of an enum with attributes
/// `attrs` and variants `variants` is.
pub open spec fn enum_ser_outcome(attrs: Seq<TypeAttribute>, variants: Seq<BorshFields>, r: Result<EnumSerPlan, TypeOptionsError>) -> bool {
    match type_options_spec(attrs, OptionsKind::Enum) {
        Err(f) => r matches Err(e) && e@ == f,
        Ok(o) => r matches Ok(p) && {
            &&& account_view(p.account) == o.0
            &&& p.write_variant_index == !o.1
            &&& variants_planned(p.variants@, variants, true)
        },
    }
}

/// Plans the Borsh serializer of an enum from its attributes and the fields
/// of its variants.
pub fn enum_ser(attrs: Vec<TypeAttribute>, variants: &Vec<BorshFields>) -> (r: Result<EnumSerPlan, TypeOptionsError>)
    requires
        type_options_spec(attrs@, OptionsKind::Enum) is Ok ==> forall|i: int|
            0 <= i < variants@.len() ==> unnamed_fit(#[trigger] variants@[i]),
    ensures
        enum_ser_outcome(attrs@, variants@, r),
{
    let options = type_options(attrs, OptionsKind::Enum);
    let TypeOptions { account, accounts } = match options {
        Ok(o) => o,
        Err(e) => return Err(e),
    };
    let plans = variants_plan(variants);
    Ok(EnumSerPlan { account, write_variant_index: !accounts, variants: plans })
}

/// What a derived enum deserializer reads.
pub struct EnumDePlan {
    /// The accounts-discriminant enum whose code for this type comes first
    /// and is checked.
    pub account: Option<String>,
    /// Whether the variant's code is read without being consumed; a list of
    /// accounts leaves it to the account itself.
    pub peek_variant_index: bool,
    /// The `#[borsh_init(...)]` attribute (by source) naming the method
    /// called on the value read.
    pub init: Option<usize>,
    /// For each variant, in order, how its fields are treated.
    pub variants: Vec<Vec<FieldPlan>>,
}

/// Whether `r` is what the deserializer plan of an enum with attributes
/// `attrs` and variants `variants` is.
pub open spec fn enum_de_outcome(attrs: Seq<TypeAttribute>, variants: Seq<BorshFields>, r: Result<EnumDePlan, TypeOptionsError>) -> bool {
    match type_options_spec(attrs, OptionsKind::Enum) {
        Err(f) => r matches Err(e) && e@ == f,
        Ok(o) => r matches Ok(p) && {
            &&& account_view(p.account) == o.0
            &&& p.peek_variant_index == o.1
            &&& p.init == init_spec(infos(attrs))
            &&& variants_planned(p.variants@, variants, true)
        },
    }
}

/// Plans the Borsh deserializer of an enum from its attributes and the
/// fields of its variants.
pub fn enum_de(attrs: Vec<TypeAttribute>, variants: &Vec<BorshFields>) -> (r: Result<EnumDePlan, TypeOptionsError>)
    requires
        type_options_spec(attrs@, OptionsKind::Enum) is Ok ==> init_readable(infos(attrs@)),
    ensures
        enum_de_outcome(attrs@, variants@, r),
{
    let init = initializer(&attrs);
    let options = type_options(attrs, OptionsKind::Enum);
    let TypeOptions { account, accounts } = match options {
        Ok(o) => o,
        Err(e) => return Err(e),
    };
    let init = match init {
        Some(i) => i,
        None => None,
    };
    let plans = variants_plan(variants);
    Ok(EnumDePlan { account, peek_variant_index: accounts, init, variants: plans })
}

/// What a derived struct serializer writes.
pub struct StructSerPlan {
    /// The accounts-discriminant enum whose code for this type comes first.
    pub account: Option<String>,
    /// How each field is treated, in order.
    pub fields: Vec<FieldPlan>,
}

/// Whether `r` is what the serializer plan of a struct with attributes
/// `attrs` and fields `fields` is.
pub open spec fn struct_ser_outcome(attrs: Seq<TypeAttribute>, fields: BorshFields, r: Result<StructSerPlan, TypeOptionsError>) -> bool {
    match type_options_spec(attrs, OptionsKind::Struct) {
        Err(f) => r matches Err(e) && e@ == f,
        Ok(o) => r matches Ok(p) && {
            &&& account_view(p.account) == o.0
            &&& plans_view(p.fields@) == fields_plan_spec(fields, false)
        },
    }
}

/// Plans the Borsh serializer of a struct: a named field holding
/// `#[borsh_skip]` is left out, unnamed fields are all written.
pub fn struct_ser(attrs: Vec<TypeAttribute>, fields: &BorshFields) -> (r: Result<StructSerPlan, TypeOptionsError>)
    requires
        type_options_spec(attrs@, OptionsKind::Struct) is Ok ==> unnamed_fit(*fields),
    ensures
        struct_ser_outcome(attrs@, *fields, r),
{
    let options = type_options(attrs, OptionsKind::Struct);
    let TypeOptions { account, accounts: _ } = match options {
        Ok(o) => o,
        Err(e) => return Err(e),
    };
    let plans = fields_plan(fields, false);
    Ok(StructSerPlan { account, fields: plans })
}

/// What a derived struct deserializer reads.
pub struct StructDePlan {
    /// The accounts-discriminant enum whose code for this type comes first
    /// and is checked.
    pub account: Option<String>,
    /// The `#[borsh_init(...)]` attribute (by source) naming the method
    /// called on the value read.
    pub init: Option<usize>,
    /// How each field is treated, in order.
    pub fields: Vec<FieldPlan>,
}

/// Whether `r` is what the deserializer plan of a struct with attributes
/// `attrs` and fields `fields` is.
pub open spec fn struct_de_outcome(attrs: Seq<TypeAttribute>, fields: BorshFields, r: Result<StructDePlan, TypeOptionsError>) -> bool {
    match type_options_spec(attrs, OptionsKind::StructDe) {
        Err(f) => r matches Err(e) && e@ == f,
        Ok(o) => r matches Ok(p) && {
            &&& account_view(p.account) == o.0
            &&& p.init == init_spec(infos(attrs))
            &&& plans_view(p.fields@) == fields_plan_spec(fields, false)
        },
    }
}

/// Plans the Borsh deserializer of a struct: a named field holding
/// `#[borsh_skip]` takes its default, unnamed fields are all read.
pub fn struct_de(attrs: Vec<TypeAttribute>, fields: &BorshFields) -> (r: Result<StructDePlan, TypeOptionsError>)
    requires
        type_options_spec(attrs@, OptionsKind::StructDe) is Ok ==> init_readable(infos(attrs@)),
    ensures
        struct_de_outcome(attrs@, *fields, r),
{
    let init = initializer(&attrs);
    let options = type_options(attrs, OptionsKind::StructDe);
    let TypeOptions { account, accounts: _ } = match options {
        Ok(o) => o,
        Err(e) => return Err(e),
    };
    let init = match init {
        Some(i) => i,
        None => None,
    };
    let plans = fields_plan(fields, false);
    Ok(StructDePlan { account, init, fields: plans })
}

/// Law: the serializer and the deserializer derived for one enum agree:
/// both are derived or both refused with the same error; once derived, they
/// put the same account code first, the deserializer peeks at the variant
/// code exactly when the serializer does not write it, and each variant's
/// fields are written and read alike, a skipped field on neither side.
pub proof fn law_enum_serde_agree(
    attrs: Seq<TypeAttribute>,
    variants: Seq<BorshFields>,
    ser: Result<EnumSerPlan, TypeOptionsError>,
    de: Result<EnumDePlan, TypeOptionsError>,
)
    requires
        enum_ser_outcome(attrs, variants, ser),
        enum_de_outcome(attrs, variants, de),
    ensures
        (ser is Ok) == (de is Ok),
        ser matches Err(e1) ==> (de matches Err(e2) && e1@ == e2@),
        ser matches Ok(p) ==> (de matches Ok(q) && {
            &&& account_view(p.account) == account_view(q.account)
            &&& p.write_variant_index == !q.peek_variant_index
            &&& p.variants@.len() == q.variants@.len()
            &&& forall|i: int| 0 <= i < p.variants@.len() ==> plans_view(#[trigger] p.variants@[i]@) == plans_view(q.variants@[i]@)
        }),
{
    if let Ok(p) = ser {
        if let Ok(q) = de {
            assert forall|i: int| 0 <= i < p.variants@.len() implies plans_view(#[trigger] p.variants@[i]@) == plans_view(q.variants@[i]@) by {
                assert(plans_view(p.variants@[i]@) == fields_plan_spec(variants[i], true));
                assert(plans_view(q.variants@[i]@) == fields_plan_spec(variants[i], true));
            }
        }
    }
}

/// Law: the serializer and the deserializer derived for one struct agree:
/// both are derived or both refused with the same error; once derived, they
/// put the same account code first and write and read the same fields, a
/// skipped field on neither side.
pub proof fn law_struct_serde_plans_agree(
    attrs: Seq<TypeAttribute>,
    fields: BorshFields,
    ser: Result<StructSerPlan, TypeOptionsError>,
    de: Result<StructDePlan, TypeOptionsError>,
)
    requires
        struct_ser_outcome(attrs, fields, ser),
        struct_de_outcome(attrs, fields, de),
    ensures
        (ser is Ok) == (de is Ok),
        ser matches Ok(p) ==> (de matches Ok(q) && account_view(p.account) == account_view(q.account)
            && plans_view(p.fields@) == plans_view(q.fields@)),
{
    law_struct_serde_agree(attrs);
}

} // verus!
