//! The `account` and `accounts` macros: the accounts enum that an account
//! type belongs to, the main accounts enum that a list of accounts reuses,
//! and the variants of an accounts enum.
use vstd::prelude::*;

use crate::meta_args::{
    duplicate_check, pop_ident_spec, pop_rest, unknown_check, ArgFault, FnkMetaArgument,
    FnkMetaArgumentList, MetaArgError,
};
use crate::discriminants::{
    discriminant_scan, discriminant_spec, enum_codes_spec, get_discriminant, is_discriminant_attr,
    lemma_scan_bounded,
    law_enum_codes_follow_declarations, law_enum_codes_strictly_increasing, DiscriminantError,
};
use crate::numbers::parse_decimal_spec;
use crate::naming::{pascal_to_snake, snake_case};
use crate::syntax::{AttrMeta, AttributeInfo, FieldsShape, LitValue, MetaValue, VariantInfo};

verus! {

/// What the argument `base = <ident>` and nothing else gives, where `optional`
/// tells whether it may be missing.
pub open spec fn base_arguments_spec(list: Seq<FnkMetaArgument>, optional: bool) -> Result<Option<Seq<char>>, ArgFault> {
    match duplicate_check(list) {
        Err(e) => Err(e),
        Ok(_) => match pop_ident_spec(list, "base"@, optional) {
            Err(e) => Err(e),
            Ok(base) => match unknown_check(pop_rest(list, "base"@)) {
                Err(e) => Err(e),
                Ok(_) => Ok(base),
            },
        },
    }
}

fn read_base(args: FnkMetaArgumentList, optional: bool) -> (r: Result<Option<String>, MetaArgError>)
    ensures
        match base_arguments_spec(args.list@, optional) {
            Err(f) => r matches Err(e) && e@ == f,
            Ok(None) => r == Ok::<Option<String>, MetaArgError>(None),
            Ok(Some(n)) => r matches Ok(Some(s)) && s@ == n,
        },
{
    let mut args = args;
    match args.error_on_duplicated() {
        Ok(()) => {},
        Err(e) => return Err(e),
    }
    let base = match args.pop_ident("base", optional) {
        Ok(v) => v,
        Err(e) => return Err(e),
    };
    match args.error_on_unknown() {
        Ok(()) => {},
        Err(e) => return Err(e),
    }
    Ok(base)
}

/// The arguments of the `account` macro.
pub struct AccountArguments {
    /// The accounts enum that the account belongs to.
    pub accounts_type_name: String,
}

impl AccountArguments {
    /// Reads the required argument `base = <ident>`; another argument, or a
    /// repeated one, is refused.
    pub fn from(args: FnkMetaArgumentList) -> (r: Result<AccountArguments, MetaArgError>)
        ensures
            match base_arguments_spec(args.list@, false) {
                Err(f) => r matches Err(e) && e@ == f,
                Ok(n) => r matches Ok(a) && n == Some(a.accounts_type_name@),
            },
    {
        match read_base(args, false) {
            Ok(Some(name)) => Ok(AccountArguments { accounts_type_name: name }),
            Ok(None) => {
                assert(false);
                Err(MetaArgError::Required("base".to_owned()))
            },
            Err(e) => Err(e),
        }
    }
}

/// The arguments of the `accounts` macro.
pub struct AccountsArguments {
    /// The main accounts enum whose discriminants the list reuses.
    pub accounts_type_name: Option<String>,
}

impl AccountsArguments {
    /// Reads the optional argument `base = <ident>`; another argument, or a
    /// repeated one, is refused.
    pub fn from(args: FnkMetaArgumentList) -> (r: Result<AccountsArguments, MetaArgError>)
        ensures
            match base_arguments_spec(args.list@, true) {
                Err(f) => r matches Err(e) && e@ == f,
                Ok(None) => r matches Ok(a) && a.accounts_type_name is None,
                Ok(Some(n)) => r matches Ok(a) && a.accounts_type_name matches Some(s) && s@ == n,
            },
    {
        match read_base(args, true) {
            Ok(name) => Ok(AccountsArguments { accounts_type_name: name }),
            Err(e) => Err(e),
        }
    }
}

/// A variant of an accounts enum.
pub struct AccountVariant {
    /// The variant's name.
    pub name: String,
    /// The variant's attributes.
    pub attributes: Vec<AttributeInfo>,
}

/// Why a variant of an accounts enum is refused.
#[derive(Debug, Clone, Copy, PartialEq, Eq)]
pub enum AccountVariantError {
    /// The variant (by source) has fields.
    FieldsNotSupported(usize),
}

impl AccountVariant {
    /// Reads a variant of an accounts enum, which may not have fields.
    pub fn from(variant: VariantInfo) -> (r: Result<AccountVariant, AccountVariantError>)
        ensures
            variant.fields.count() == 0 ==> (r matches Ok(a) && a.name == variant.name && a.attributes == variant.attrs),
            variant.fields.count() != 0 ==> r == Err::<AccountVariant, AccountVariantError>(
                AccountVariantError::FieldsNotSupported(variant.source),
            ),
    {
        let empty = match &variant.fields {
            FieldsShape::Named(v) => v.len() == 0,
            FieldsShape::Unnamed(n) => *n == 0,
            FieldsShape::Unit => true,
        };
        if !empty {
            return Err(AccountVariantError::FieldsNotSupported(variant.source));
        }
        Ok(AccountVariant { name: variant.name, attributes: variant.attrs })
    }
}

/// An accounts enum, read from its variants.
pub struct AccountsEnum {
    /// The variants, in order.
    pub variants: Vec<AccountVariant>,
    /// The snake-case names of the variants, from which the accessor
    /// methods are named.
    pub method_names: Vec<String>,
    /// Whether the first variant gets the attribute `#[discriminant = 1]`,
    /// so that the accounts' codes start at 1.
    pub initial_discriminant: bool,
}

/// Why an accounts enum is refused.
#[derive(Debug, Clone, Copy, PartialEq, Eq)]
pub enum AccountsEnumError {
    /// The discriminant attribute of the first variant is refused.
    Discriminant(DiscriminantError),
    /// A variant is refused.
    Variant(AccountVariantError),
    /// The first variant (by source) declares the reserved discriminant 0.
    ZeroDiscriminant(usize),
}

/// Whether the variant at `i` is the first one with fields.
pub open spec fn first_with_fields(vs: Seq<VariantInfo>, i: int) -> bool {
    &&& 0 <= i < vs.len()
    &&& vs[i].fields.count() != 0
    &&& forall|k: int| 0 <= k < i ==> (#[trigger] vs[k]).fields.count() == 0
}

/// Whether `e` is the accounts enum that the variants `vs` give.
pub open spec fn accounts_enum_holds(e: AccountsEnum, vs: Seq<VariantInfo>, initial: bool) -> bool {
    &&& e.variants@.len() == vs.len()
    &&& e.method_names@.len() == vs.len()
    &&& forall|i: int| 0 <= i < vs.len() ==> {
        &&& (#[trigger] e.variants@[i]).name == vs[i].name
        &&& e.variants@[i].attributes == vs[i].attrs
        &&& e.method_names@[i]@ == pascal_to_snake(vs[i].name@)
    }
    &&& e.initial_discriminant == initial
}

/// Reads the variants of an accounts enum: the first one's discriminant,
/// which may not be 0 and, when absent in an enum without a base, is set
/// to 1; each variant, which may not have fields; and the variants' names in
/// snake case. The enum has at least one variant.
pub fn accounts_enum(has_base: bool, variants: Vec<VariantInfo>) -> (r: Result<AccountsEnum, AccountsEnumError>)
    requires
        variants@.len() > 0,
    ensures
        match discriminant_spec(variants@[0], 255) {
            Err(e) => r == Err::<AccountsEnum, AccountsEnumError>(AccountsEnumError::Discriminant(e)),
            Ok(d) => if exists|i: int| first_with_fields(variants@, i) {
                r == Err::<AccountsEnum, AccountsEnumError>(
                    AccountsEnumError::Variant(AccountVariantError::FieldsNotSupported(
                        variants@[choose|i: int| first_with_fields(variants@, i)].source,
                    )),
                )
            } else if d == Some(0int) {
                r == Err::<AccountsEnum, AccountsEnumError>(AccountsEnumError::ZeroDiscriminant(variants@[0].source))
            } else {
                r matches Ok(e) && accounts_enum_holds(e, variants@, d is None && !has_base)
            },
        },
{
    let ghost orig = variants@;
    let discriminant = match get_discriminant(&variants[0], 255) {
        Ok(d) => d,
        Err(e) => return Err(AccountsEnumError::Discriminant(e)),
    };
    let first_source = variants[0].source;
    let n = variants.len();
    let mut rest = variants;
    let mut read: Vec<AccountVariant> = Vec::new();
    let mut method_names: Vec<String> = Vec::new();
    let mut i: usize = 0;
    while rest.len() > 0
        invariant
            i <= orig.len(),
            n == orig.len(),
            orig == variants@,
            discriminant_spec(orig[0], 255) is Ok,
            rest@ == orig.skip(i as int),
            read@.len() == i,
            method_names@.len() == i,
            forall|k: int| 0 <= k < i ==> (#[trigger] orig[k]).fields.count() == 0,
            forall|k: int| 0 <= k < i ==> {
                &&& (#[trigger] read@[k]).name == orig[k].name
                &&& read@[k].attributes == orig[k].attrs
                &&& method_names@[k]@ == pascal_to_snake(orig[k].name@)
            },
        decreases rest@.len(),
    {
        let ghost before = rest@;
        let variant = rest.remove(0);
        assert(variant == orig[i as int]);
        assert(rest@ =~= orig.skip(i + 1));
        let source = variant.source;
        let account_variant = match AccountVariant::from(variant) {
            Ok(v) => v,
            Err(e) => {
                assert(first_with_fields(orig, i as int));
                assert forall|x: int| first_with_fields(orig, x) implies x == i by {
                    if x < i {
                        assert(orig[x].fields.count() == 0);
                    } else if x > i {
                        assert(orig[i as int].fields.count() == 0);
                    }
                }
                assert(e == AccountVariantError::FieldsNotSupported(source));
                return Err(AccountsEnumError::Variant(e));
            },
        };
        let snake = snake_case(account_variant.name.as_str());
        read.push(account_variant);
        method_names.push(snake);
        i = i + 1;
    }
    assert(!exists|x: int| first_with_fields(orig, x));
    let initial_discriminant = match discriminant {
        Some(v) => {
            if v == 0 {
                return Err(AccountsEnumError::ZeroDiscriminant(first_source));
            }
            false
        },
        None => !has_base,
    };
    Ok(AccountsEnum { variants: read, method_names, initial_discriminant })
}

/// Whether the attribute is `#[discriminant = n]` with `n` reading as `value`.
pub open spec fn declares(a: AttributeInfo, value: int) -> bool {
    &&& is_discriminant_attr(a)
    &&& a.meta matches AttrMeta::NameValue(MetaValue::Lit(LitValue::Int(d)), _) && parse_decimal_spec(d@, 255)
        == Ok::<int, crate::numbers::NumberError>(value)
}

proof fn lemma_scan_appended(attrs: Seq<AttributeInfo>, a: AttributeInfo, value: int)
    requires
        discriminant_scan(attrs, 255, None) == Ok::<Option<int>, DiscriminantError>(None),
        declares(a, value),
    ensures
        discriminant_scan(attrs.push(a), 255, None) == Ok::<Option<int>, DiscriminantError>(Some(value)),
    decreases attrs.len(),
{
    if attrs.len() == 0 {
        let single = attrs.push(a);
        assert(single.drop_first() =~= Seq::<AttributeInfo>::empty());
        assert(single[0] == a);
        assert(single.len() == 1);
        match a.meta {
            AttrMeta::NameValue(MetaValue::Lit(LitValue::Int(d)), _) => {
                assert(parse_decimal_spec(d@, 255) == Ok::<int, crate::numbers::NumberError>(value));
                assert(discriminant_scan(single.drop_first(), 255, Some(value)) == Ok::<Option<int>, DiscriminantError>(Some(value)));
            },
            _ => {},
        }
    } else {
        assert(attrs.push(a)[0] == attrs[0]);
        assert(attrs.push(a).drop_first() =~= attrs.drop_first().push(a));
        if is_discriminant_attr(attrs[0]) {
            match attrs[0].meta {
                AttrMeta::NameValue(MetaValue::Lit(LitValue::Int(d)), _) => {
                    match parse_decimal_spec(d@, 255) {
                        Ok(v) => {
                            lemma_scan_keeps_found(attrs.drop_first(), v);
                        },
                        Err(_) => {},
                    }
                },
                _ => {},
            }
        } else {
            lemma_scan_appended(attrs.drop_first(), a, value);
        }
    }
}

proof fn lemma_scan_keeps_found(attrs: Seq<AttributeInfo>, v: int)
    ensures
        discriminant_scan(attrs, 255, Some(v)) != Ok::<Option<int>, DiscriminantError>(None),
    decreases attrs.len(),
{
    if attrs.len() > 0 && !is_discriminant_attr(attrs[0]) {
        lemma_scan_keeps_found(attrs.drop_first(), v);
    }
}

/// Law: the zero discriminant is reserved, so no account of an accounts
/// enum without a base gets the code 0: `accounts_enum` refuses a first
/// variant that declares 0, and one that declares nothing gets `one`, the
/// attribute `#[discriminant = 1]`, appended (`first`); the codes then
/// numbered are all at least 1.
pub proof fn law_accounts_codes_start_at_one(vs: Seq<VariantInfo>, one: AttributeInfo, first: VariantInfo)
    requires
        vs.len() > 0,
        discriminant_spec(vs[0], 255) matches Ok(d) && d != Some(0int),
        declares(one, 1),
        first.native_discriminant == vs[0].native_discriminant,
        first.attrs@ == vs[0].attrs@.push(one),
    ensures
        discriminant_spec(vs[0], 255) matches Ok(Some(_)) ==> (enum_codes_spec(vs) matches Ok(codes) ==> forall|i: int|
            0 <= i < codes.len() ==> codes[i] >= 1),
        discriminant_spec(vs[0], 255) matches Ok(None) ==> (enum_codes_spec(vs.update(0, first)) matches Ok(codes)
            ==> forall|i: int| 0 <= i < codes.len() ==> codes[i] >= 1),
{
    law_enum_codes_follow_declarations(vs);
    law_enum_codes_strictly_increasing(vs);
    let final_vs = vs.update(0, first);
    law_enum_codes_follow_declarations(final_vs);
    law_enum_codes_strictly_increasing(final_vs);
    if discriminant_spec(vs[0], 255) matches Ok(None) {
        lemma_scan_appended(vs[0].attrs@, one, 1);
        assert(discriminant_spec(final_vs[0], 255) == Ok::<Option<int>, DiscriminantError>(Some(1)));
        if let Ok(codes) = enum_codes_spec(final_vs) {
            assert(codes[0] == 1);
            assert forall|i: int| 0 <= i < codes.len() implies codes[i] >= 1 by {
                if i > 0 {
                    assert(codes[0] < codes[i]);
                }
            }
        }
    } else {
        lemma_scan_bounded(vs[0].attrs@, 255, None);
        if let Ok(codes) = enum_codes_spec(vs) {
            assert(discriminant_spec(vs[0], 255) matches Ok(Some(x)) && codes[0] == x);
            assert forall|i: int| 0 <= i < codes.len() implies codes[i] >= 1 by {
                if i > 0 {
                    assert(codes[0] < codes[i]);
                }
            }
        }
    }
}

} // verus!
