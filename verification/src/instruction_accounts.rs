//! The arguments that the `#[account(...)]` attributes of an
//! instruction-accounts type give the type as a whole: `args = <ident>`,
//! `initial_validation` and `final_validation`.
use vstd::prelude::*;

use crate::account_field::{
    check_fields, field_attrs_spec, field_check, field_holds, kind_of, kind_readable, no_attrs,
    AccountAttribute, AccountMeta, CheckFieldsError, Field, FieldAttrs, FieldError, FieldInfo,
    FieldKind, FieldVariantInfo,
};
use crate::syntax::{same_text, FieldsShape, MetaValue};

verus! {

/// A validation step of an instruction's accounts.
#[derive(Debug, Clone, Copy, PartialEq, Eq)]
pub enum Validation {
    /// The argument has no value: the type's own validation method.
    Implicit,
    /// The argument's value (by the argument's source) is the validation.
    Explicit(usize),
}

/// The arguments of an instruction-accounts type.
pub struct InstructionArguments {
    /// The type of the instruction's arguments.
    pub args: Option<String>,
    /// The validation run before the accounts are read.
    pub initial_validation: Option<Validation>,
    /// The validation run after they are read.
    pub final_validation: Option<Validation>,
}

/// Why the arguments are refused.
#[derive(Debug, Clone, Copy, PartialEq, Eq)]
pub enum InstructionArgumentsError {
    /// An `account` attribute (by source) without arguments in brackets.
    ExpectsArguments(usize),
    /// A second `args` argument (by source).
    ArgsTwice(usize),
    /// An `args` argument (by source) whose value is a path of more than one segment.
    ArgsNotIdent(usize),
    /// An `args` argument (by source) without a value.
    ArgsNeedsValue(usize),
    /// An unknown argument (by source), or an `args` whose value is not a path.
    Unknown(usize),
}

/// The arguments read so far: the `args` type's name and the two validations.
pub type ArgumentsView = (Option<Seq<char>>, Option<Validation>, Option<Validation>);

/// Reads one argument of an `account` attribute.
pub open spec fn arguments_step(m: AccountMeta, st: ArgumentsView) -> Result<ArgumentsView, InstructionArgumentsError> {
    let name = m.name@;
    match m.value {
        Some(v) => if name == "args"@ {
            if st.0 is Some {
                Err(InstructionArgumentsError::ArgsTwice(m.source))
            } else {
                match v {
                    MetaValue::Path(segments) => if segments@.len() != 1 {
                        Err(InstructionArgumentsError::ArgsNotIdent(m.source))
                    } else {
                        Ok((Some(segments@[0]@), st.1, st.2))
                    },
                    _ => Err(InstructionArgumentsError::Unknown(m.source)),
                }
            }
        } else if name == "initial_validation"@ {
            Ok((st.0, Some(Validation::Explicit(m.source)), st.2))
        } else if name == "final_validation"@ {
            Ok((st.0, st.1, Some(Validation::Explicit(m.source))))
        } else {
            Err(InstructionArgumentsError::Unknown(m.source))
        },
        None => if name == "args"@ {
            Err(InstructionArgumentsError::ArgsNeedsValue(m.source))
        } else if name == "initial_validation"@ {
            Ok((st.0, Some(Validation::Implicit), st.2))
        } else if name == "final_validation"@ {
            Ok((st.0, st.1, Some(Validation::Implicit)))
        } else {
            Err(InstructionArgumentsError::Unknown(m.source))
        },
    }
}

/// Reads the arguments of an `account` attribute, from the first.
pub open spec fn arguments_scan(metas: Seq<AccountMeta>, st: ArgumentsView) -> Result<ArgumentsView, InstructionArgumentsError>
    decreases metas.len(),
{
    if metas.len() == 0 {
        Ok(st)
    } else {
        match arguments_step(metas[0], st) {
            Err(e) => Err(e),
            Ok(next) => arguments_scan(metas.drop_first(), next),
        }
    }
}

/// Reads the `account` attributes among `attrs`, from the first; other
/// attributes are skipped.
pub open spec fn attributes_scan(attrs: Seq<AccountAttribute>, st: ArgumentsView) -> Result<ArgumentsView, InstructionArgumentsError>
    decreases attrs.len(),
{
    if attrs.len() == 0 {
        Ok(st)
    } else {
        let a = attrs[0];
        if !a.is_account {
            attributes_scan(attrs.drop_first(), st)
        } else {
            match a.args {
                None => Err(InstructionArgumentsError::ExpectsArguments(a.source)),
                Some(metas) => match arguments_scan(metas@, st) {
                    Err(e) => Err(e),
                    Ok(next) => attributes_scan(attrs.drop_first(), next),
                },
            }
        }
    }
}

/// The arguments as plain values.
pub open spec fn arguments_view(a: InstructionArguments) -> ArgumentsView {
    (
        match a.args {
            Some(s) => Some(s@),
            None => None,
        },
        a.initial_validation,
        a.final_validation,
    )
}

impl InstructionArguments {
    fn read_metas(&mut self, metas: &Vec<AccountMeta>) -> (r: Result<(), InstructionArgumentsError>)
        ensures
            match arguments_scan(metas@, arguments_view(*old(self))) {
                Err(f) => r == Err::<(), InstructionArgumentsError>(f),
                Ok(v) => r is Ok && arguments_view(*final(self)) == v,
            },
    {
        let ghost start = arguments_view(*self);
        let mut i: usize = 0;
        assert(metas@.skip(0) =~= metas@);
        while i < metas.len()
            invariant
                0 <= i <= metas@.len(),
                start == arguments_view(*old(self)),
                arguments_scan(metas@, start) == arguments_scan(metas@.skip(i as int), arguments_view(*self)),
            decreases metas@.len() - i,
        {
            let m = &metas[i];
            assert(metas@.skip(i as int).drop_first() =~= metas@.skip(i + 1));
            assert(metas@.skip(i as int)[0] == *m);
            match &m.value {
                Some(v) => {
                    if same_text(&m.name, "args") {
                        if self.args.is_some() {
                            return Err(InstructionArgumentsError::ArgsTwice(m.source));
                        }
                        match v {
                            MetaValue::Path(segments) => {
                                if segments.len() != 1 {
                                    return Err(InstructionArgumentsError::ArgsNotIdent(m.source));
                                }
                                self.args = Some(segments[0].clone());
                            },
                            _ => return Err(InstructionArgumentsError::Unknown(m.source)),
                        }
                    } else if same_text(&m.name, "initial_validation") {
                        self.initial_validation = Some(Validation::Explicit(m.source));
                    } else if same_text(&m.name, "final_validation") {
                        self.final_validation = Some(Validation::Explicit(m.source));
                    } else {
                        return Err(InstructionArgumentsError::Unknown(m.source));
                    }
                },
                None => {
                    if same_text(&m.name, "args") {
                        return Err(InstructionArgumentsError::ArgsNeedsValue(m.source));
                    } else if same_text(&m.name, "initial_validation") {
                        self.initial_validation = Some(Validation::Implicit);
                    } else if same_text(&m.name, "final_validation") {
                        self.final_validation = Some(Validation::Implicit);
                    } else {
                        return Err(InstructionArgumentsError::Unknown(m.source));
                    }
                },
            }
            i = i + 1;
        }
        assert(metas@.skip(i as int) =~= Seq::<AccountMeta>::empty());
        Ok(())
    }

    /// Reads the arguments of the `account` attributes of an
    /// instruction-accounts type, in order; a later validation replaces an
    /// earlier one, while `args` may be given once.
    pub fn from(attributes: &[AccountAttribute]) -> (r: Result<InstructionArguments, InstructionArgumentsError>)
        ensures
            match attributes_scan(attributes@, (None, None, None)) {
                Err(f) => r == Err::<InstructionArguments, InstructionArgumentsError>(f),
                Ok(v) => r matches Ok(a) && arguments_view(a) == v,
            },
    {
        let mut result = InstructionArguments { args: None, initial_validation: None, final_validation: None };
        let mut i: usize = 0;
        assert(attributes@.skip(0) =~= attributes@);
        while i < attributes.len()
            invariant
                0 <= i <= attributes@.len(),
                attributes_scan(attributes@, (None, None, None)) == attributes_scan(
                    attributes@.skip(i as int),
                    arguments_view(result),
                ),
            decreases attributes@.len() - i,
        {
            let attribute = &attributes[i];
            assert(attributes@.skip(i as int).drop_first() =~= attributes@.skip(i + 1));
            assert(attributes@.skip(i as int)[0] == *attribute);
            if attribute.is_account {
                match &attribute.args {
                    None => return Err(InstructionArgumentsError::ExpectsArguments(attribute.source)),
                    Some(metas) => match result.read_metas(metas) {
                        Ok(()) => {},
                        Err(e) => return Err(e),
                    },
                }
            }
            i = i + 1;
        }
        assert(attributes@.skip(i as int) =~= Seq::<AccountAttribute>::empty());
        Ok(result)
    }
}

/// An instruction-accounts type, read and checked: its arguments and its
/// fields (or, for an enum, its variants), from which the code is written.
pub struct AccountsType {
    /// The arguments of its `account` attributes.
    pub arguments: InstructionArguments,
    /// The fields, or the variants, in order.
    pub fields: Vec<Field>,
}

/// Why an instruction-accounts type is refused.
#[derive(Debug, Clone, Copy, PartialEq, Eq)]
pub enum AccountsTypeError {
    /// The type's arguments are refused.
    Arguments(InstructionArgumentsError),
    /// A field or variant is refused.
    Field(FieldError),
    /// The field or variant at the position is refused among the others.
    Check(usize, CheckFieldsError),
    /// A variant (by source) holds a `Vec`, which enums do not support.
    VecInEnum(usize),
}

/// What reading a named field gives: its settings, or the refusal.
pub open spec fn field_outcome(f: FieldInfo) -> Result<FieldAttrs, FieldError> {
    match field_attrs_spec(f.attrs@, no_attrs(), false) {
        Ok(st) => Ok(st),
        Err(a) => Err(FieldError::Attr(a)),
    }
}

/// Whether the field at `i` is the first one refused.
pub open spec fn first_field_error(infos: Seq<FieldInfo>, i: int) -> bool {
    &&& 0 <= i < infos.len()
    &&& field_outcome(infos[i]) is Err
    &&& forall|k: int| 0 <= k < i ==> field_outcome(#[trigger] infos[k]) is Ok
}

/// Whether the fields `fs` are what the named fields `infos` give.
pub open spec fn struct_fields_hold(fs: Seq<Field>, infos: Seq<FieldInfo>) -> bool {
    &&& fs.len() == infos.len()
    &&& forall|i: int| 0 <= i < infos.len() ==> (field_outcome(#[trigger] infos[i]) matches Ok(st) && field_holds(
        fs[i],
        infos[i].source,
        infos[i].name.unwrap()@,
        kind_of(infos[i].ty),
        st,
    ))
}

/// Whether no field is refused among the others.
pub open spec fn all_checked(fs: Seq<Field>) -> bool {
    forall|i: int| 0 <= i < fs.len() ==> #[trigger] field_check(fs, i) is None
}

/// Whether `i` is the first field refused among the others, for the reason `k`.
pub open spec fn first_check_error(fs: Seq<Field>, i: int, k: CheckFieldsError) -> bool {
    &&& 0 <= i < fs.len()
    &&& field_check(fs, i) == Some(k)
    &&& forall|j: int| 0 <= j < i ==> #[trigger] field_check(fs, j) is None
}

/// Whether reading the fields in order reaches the one at `i`: each
/// earlier one is read without refusal.
pub open spec fn field_reached(infos: Seq<FieldInfo>, i: int) -> bool {
    forall|k: int| 0 <= k < i ==> field_outcome(#[trigger] infos[k]) is Ok
}

/// Whether a field can be read without panicking: it is named, and its type
/// tells its kind.
pub open spec fn field_readable(f: FieldInfo) -> bool {
    f.name is Some && kind_readable(f.ty)
}

/// Reads and checks an instruction-accounts struct with named fields: the
/// arguments of its attributes, then each field, then the fields together.
pub fn process_struct(attrs: &[AccountAttribute], fields: Vec<FieldInfo>) -> (r: Result<AccountsType, AccountsTypeError>)
    requires
        attributes_scan(attrs@, (None, None, None)) is Ok ==> forall|i: int|
            0 <= i < fields@.len() && field_reached(fields@, i) ==> field_readable(#[trigger] fields@[i]),
    ensures
        match attributes_scan(attrs@, (None, None, None)) {
            Err(f) => r == Err::<AccountsType, AccountsTypeError>(AccountsTypeError::Arguments(f)),
            Ok(a) => if exists|i: int| first_field_error(fields@, i) {
                r == Err::<AccountsType, AccountsTypeError>(AccountsTypeError::Field(
                    field_outcome(fields@[choose|i: int| first_field_error(fields@, i)])->Err_0,
                ))
            } else {
                exists|fs: Seq<Field>| #[trigger] struct_fields_hold(fs, fields@) && match r {
                    Ok(t) => t.fields@ == fs && arguments_view(t.arguments) == a && all_checked(fs),
                    Err(AccountsTypeError::Check(i, k)) => first_check_error(fs, i as int, k),
                    Err(_) => false,
                }
            },
        },
{
    let arguments = match InstructionArguments::from(attrs) {
        Ok(a) => a,
        Err(e) => return Err(AccountsTypeError::Arguments(e)),
    };
    let ghost orig = fields@;
    let n = fields.len();
    let mut rest = fields;
    let mut read: Vec<Field> = Vec::new();
    let mut i: usize = 0;
    while rest.len() > 0
        invariant
            i <= orig.len(),
            n == orig.len(),
            orig == fields@,
            attributes_scan(attrs@, (None, None, None)) == Ok::<ArgumentsView, InstructionArgumentsError>(arguments_view(arguments)),
            rest@ == orig.skip(i as int),
            read@.len() == i,
            forall|k: int| 0 <= k < orig.len() && field_reached(orig, k) ==> field_readable(#[trigger] orig[k]),
            forall|k: int| 0 <= k < i ==> (field_outcome(#[trigger] orig[k]) matches Ok(st) && field_holds(
                read@[k],
                orig[k].source,
                orig[k].name.unwrap()@,
                kind_of(orig[k].ty),
                st,
            )),
        decreases rest@.len(),
    {
        let info = rest.remove(0);
        assert(info == orig[i as int]);
        assert(rest@ =~= orig.skip(i + 1));
        assert(field_reached(orig, i as int));
        let field = match Field::from(info) {
            Ok(f) => f,
            Err(e) => {
                assert(first_field_error(orig, i as int));
                assert forall|x: int| first_field_error(orig, x) implies x == i by {
                    if x < i {
                        assert(field_outcome(orig[x]) is Ok);
                    } else if x > i {
                        assert(field_outcome(orig[i as int]) is Ok);
                    }
                }
                return Err(AccountsTypeError::Field(e));
            },
        };
        read.push(field);
        i = i + 1;
    }
    assert(!exists|x: int| first_field_error(orig, x));
    assert(struct_fields_hold(read@, orig));
    match check_fields(read.as_slice()) {
        Ok(()) => Ok(AccountsType { arguments, fields: read }),
        Err((i, k)) => Err(AccountsTypeError::Check(i, k)),
    }
}

/// Whether a variant can be read: the types of its unnamed fields are all
/// known, and a single one has a kind.
pub open spec fn variant_readable(v: FieldVariantInfo) -> bool {
    &&& (v.fields matches FieldsShape::Unnamed(n) ==> v.unnamed_types@.len() == n)
    &&& (v.fields matches FieldsShape::Unnamed(n) && n == 1 ==> kind_readable(v.unnamed_types@[0]))
}

/// What reading a variant gives: its kind and settings, or the refusal.
pub open spec fn variant_outcome(v: FieldVariantInfo) -> Result<(FieldKind, FieldAttrs), FieldError> {
    match v.fields {
        FieldsShape::Unnamed(n) => if n != 1 {
            Err(FieldError::SingleUnnamedField(v.source))
        } else {
            match field_attrs_spec(v.attrs@, no_attrs(), true) {
                Ok(st) => Ok((kind_of(v.unnamed_types@[0]), st)),
                Err(a) => Err(FieldError::Attr(a)),
            }
        },
        _ => Err(FieldError::VariantShape(v.source)),
    }
}

/// Whether reading the variants in order reaches the one at `i`: each
/// earlier one is read without refusal.
pub open spec fn variant_reached(vs: Seq<FieldVariantInfo>, i: int) -> bool {
    forall|k: int| 0 <= k < i ==> variant_outcome(#[trigger] vs[k]) is Ok
}

/// Whether the variant at `i` is the first one refused.
pub open spec fn first_variant_error(vs: Seq<FieldVariantInfo>, i: int) -> bool {
    &&& 0 <= i < vs.len()
    &&& variant_outcome(vs[i]) is Err
    &&& forall|k: int| 0 <= k < i ==> variant_outcome(#[trigger] vs[k]) is Ok
}

/// Whether the fields `fs` are what the variants `vs` give.
pub open spec fn variant_fields_hold(fs: Seq<Field>, vs: Seq<FieldVariantInfo>) -> bool {
    &&& fs.len() == vs.len()
    &&& forall|i: int| 0 <= i < vs.len() ==> (variant_outcome(#[trigger] vs[i]) matches Ok(ks) && field_holds(
        fs[i],
        vs[i].source,
        vs[i].name@,
        ks.0,
        ks.1,
    ))
}

/// Whether `i` is the first field that holds a `Vec`.
pub open spec fn first_vec(fs: Seq<Field>, i: int) -> bool {
    &&& 0 <= i < fs.len()
    &&& fs[i].kind is Vec
    &&& forall|k: int| 0 <= k < i ==> !((#[trigger] fs[k]).kind is Vec)
}

/// Reads and checks an instruction-accounts enum whose variants each hold
/// one account: the arguments of its attributes, then each variant, then
/// the variants together; a variant holding a `Vec` is refused last.
pub fn process_enum(attrs: &[AccountAttribute], variants: Vec<FieldVariantInfo>) -> (r: Result<AccountsType, AccountsTypeError>)
    requires
        attributes_scan(attrs@, (None, None, None)) is Ok ==> forall|i: int|
            0 <= i < variants@.len() && variant_reached(variants@, i) ==> variant_readable(#[trigger] variants@[i]),
    ensures
        match attributes_scan(attrs@, (None, None, None)) {
            Err(f) => r == Err::<AccountsType, AccountsTypeError>(AccountsTypeError::Arguments(f)),
            Ok(a) => if exists|i: int| first_variant_error(variants@, i) {
                r == Err::<AccountsType, AccountsTypeError>(AccountsTypeError::Field(
                    variant_outcome(variants@[choose|i: int| first_variant_error(variants@, i)])->Err_0,
                ))
            } else {
                exists|fs: Seq<Field>| #[trigger] variant_fields_hold(fs, variants@) && match r {
                    Ok(t) => {
                        &&& t.fields@ == fs
                        &&& arguments_view(t.arguments) == a
                        &&& all_checked(fs)
                        &&& forall|i: int| 0 <= i < fs.len() ==> !((#[trigger] fs[i]).kind is Vec)
                    },
                    Err(AccountsTypeError::Check(i, k)) => first_check_error(fs, i as int, k),
                    Err(AccountsTypeError::VecInEnum(s)) => all_checked(fs) && exists|i: int| first_vec(fs, i) && fs[i].source == s,
                    Err(_) => false,
                }
            },
        },
{
    let arguments = match InstructionArguments::from(attrs) {
        Ok(a) => a,
        Err(e) => return Err(AccountsTypeError::Arguments(e)),
    };
    let ghost orig = variants@;
    let n = variants.len();
    let mut rest = variants;
    let mut read: Vec<Field> = Vec::new();
    let mut i: usize = 0;
    while rest.len() > 0
        invariant
            i <= orig.len(),
            n == orig.len(),
            orig == variants@,
            attributes_scan(attrs@, (None, None, None)) == Ok::<ArgumentsView, InstructionArgumentsError>(arguments_view(arguments)),
            rest@ == orig.skip(i as int),
            read@.len() == i,
            forall|k: int| 0 <= k < orig.len() && variant_reached(orig, k) ==> variant_readable(#[trigger] orig[k]),
            forall|k: int| 0 <= k < i ==> (variant_outcome(#[trigger] orig[k]) matches Ok(ks) && field_holds(
                read@[k],
                orig[k].source,
                orig[k].name@,
                ks.0,
                ks.1,
            )),
        decreases rest@.len(),
    {
        let variant = rest.remove(0);
        assert(variant == orig[i as int]);
        assert(rest@ =~= orig.skip(i + 1));
        assert(variant_reached(orig, i as int));
        assert(variant_readable(variant));
        let field = match Field::from_variant(variant) {
            Ok(f) => f,
            Err(e) => {
                assert(first_variant_error(orig, i as int));
                assert forall|x: int| first_variant_error(orig, x) implies x == i by {
                    if x < i {
                        assert(variant_outcome(orig[x]) is Ok);
                    } else if x > i {
                        assert(variant_outcome(orig[i as int]) is Ok);
                    }
                }
                return Err(AccountsTypeError::Field(e));
            },
        };
        read.push(field);
        i = i + 1;
    }
    assert(!exists|x: int| first_variant_error(orig, x));
    assert(variant_fields_hold(read@, orig));
    match check_fields(read.as_slice()) {
        Ok(()) => {},
        Err((i, k)) => return Err(AccountsTypeError::Check(i, k)),
    }
    assert(all_checked(read@));
    let mut j: usize = 0;
    while j < read.len()
        invariant
            0 <= j <= read@.len(),
            orig == variants@,
            attributes_scan(attrs@, (None, None, None)) == Ok::<ArgumentsView, InstructionArgumentsError>(arguments_view(arguments)),
            !exists|x: int| first_variant_error(orig, x),
            variant_fields_hold(read@, orig),
            all_checked(read@),
            forall|k: int| 0 <= k < j ==> !((#[trigger] read@[k]).kind is Vec),
        decreases read@.len() - j,
    {
        if let FieldKind::Vec(_) = read[j].kind {
            assert(first_vec(read@, j as int));
            return Err(AccountsTypeError::VecInEnum(read[j].source));
        }
        j = j + 1;
    }
    Ok(AccountsType { arguments, fields: read })
}

/// The arguments of the `account` attributes of a type, in the order in
/// which they are read: the attributes from the first, the arguments of one
/// attribute in their own order.
pub open spec fn type_account_metas(attrs: Seq<AccountAttribute>) -> Seq<AccountMeta>
    decreases attrs.len(),
{
    if attrs.len() == 0 {
        Seq::empty()
    } else {
        let a = attrs[0];
        (if a.is_account && a.args is Some {
            a.args->0@
        } else {
            Seq::empty()
        }) + type_account_metas(attrs.drop_first())
    }
}

/// The validation that an argument gives.
pub open spec fn validation_of_meta(m: AccountMeta) -> Validation {
    if m.value is Some {
        Validation::Explicit(m.source)
    } else {
        Validation::Implicit
    }
}

proof fn lemma_arguments_concat(a: Seq<AccountMeta>, b: Seq<AccountMeta>, st: ArgumentsView)
    ensures
        arguments_scan(a + b, st) == (match arguments_scan(a, st) {
            Ok(s1) => arguments_scan(b, s1),
            Err(e) => Err(e),
        }),
    decreases a.len(),
{
    if a.len() > 0 {
        assert((a + b).drop_first() =~= a.drop_first() + b);
        assert((a + b)[0] == a[0]);
        if let Ok(s1) = arguments_step(a[0], st) {
            lemma_arguments_concat(a.drop_first(), b, s1);
        }
    } else {
        assert(a + b =~= b);
    }
}

proof fn lemma_attributes_as_arguments(attrs: Seq<AccountAttribute>, st: ArgumentsView)
    requires
        attributes_scan(attrs, st) is Ok,
    ensures
        arguments_scan(type_account_metas(attrs), st) == attributes_scan(attrs, st),
    decreases attrs.len(),
{
    if attrs.len() > 0 {
        let a = attrs[0];
        let own = if a.is_account && a.args is Some {
            a.args->0@
        } else {
            Seq::<AccountMeta>::empty()
        };
        lemma_arguments_concat(own, type_account_metas(attrs.drop_first()), st);
        if !a.is_account {
            lemma_attributes_as_arguments(attrs.drop_first(), st);
        } else if let Some(metas) = a.args {
            if let Ok(next) = arguments_scan(metas@, st) {
                lemma_attributes_as_arguments(attrs.drop_first(), next);
            }
        }
    }
}

proof fn lemma_args_once(ms: Seq<AccountMeta>, st: ArgumentsView, j: int)
    requires
        st.0 is Some,
        arguments_scan(ms, st) is Ok,
        0 <= j < ms.len(),
    ensures
        ms[j].name@ != "args"@,
    decreases ms.len(),
{
    if j > 0 {
        let next = arguments_step(ms[0], st)->Ok_0;
        assert(ms.drop_first()[j - 1] == ms[j]);
        lemma_args_once(ms.drop_first(), next, j - 1);
    }
}

proof fn lemma_no_args_twice(ms: Seq<AccountMeta>, st: ArgumentsView, i: int, j: int)
    requires
        arguments_scan(ms, st) is Ok,
        0 <= i < j < ms.len(),
        ms[i].name@ == "args"@,
    ensures
        ms[j].name@ != "args"@,
    decreases ms.len(),
{
    let next = arguments_step(ms[0], st)->Ok_0;
    assert(ms.drop_first()[j - 1] == ms[j]);
    if i == 0 {
        lemma_args_once(ms.drop_first(), next, j - 1);
    } else {
        assert(ms.drop_first()[i - 1] == ms[i]);
        lemma_no_args_twice(ms.drop_first(), next, i - 1, j - 1);
    }
}

/// Whether the argument at `j` is the last one named `name`.
pub open spec fn last_named(ms: Seq<AccountMeta>, name: Seq<char>, j: int) -> bool {
    &&& 0 <= j < ms.len()
    &&& ms[j].name@ == name
    &&& forall|k: int| j < k < ms.len() ==> (#[trigger] ms[k]).name@ != name
}

/// Whether no argument is named `name`.
pub open spec fn none_named(ms: Seq<AccountMeta>, name: Seq<char>) -> bool {
    forall|k: int| 0 <= k < ms.len() ==> (#[trigger] ms[k]).name@ != name
}

/// The validation that `which` (true: the initial one, false: the final one)
/// holds in `st`.
pub open spec fn validation_in(st: ArgumentsView, which: bool) -> Option<Validation> {
    if which {
        st.1
    } else {
        st.2
    }
}

/// The name of the validation argument `which`.
pub open spec fn validation_name(which: bool) -> Seq<char> {
    if which {
        "initial_validation"@
    } else {
        "final_validation"@
    }
}

proof fn lemma_step_validation(m: AccountMeta, st: ArgumentsView, which: bool)
    ensures
        arguments_step(m, st) matches Ok(next) ==> validation_in(next, which) == (if m.name@ == validation_name(which) {
            Some(validation_of_meta(m))
        } else {
            validation_in(st, which)
        }),
{
    reveal_strlit("args");
    reveal_strlit("initial_validation");
    reveal_strlit("final_validation");
    assert("args"@.len() != "initial_validation"@.len());
    assert("args"@.len() != "final_validation"@.len());
    assert("initial_validation"@.len() != "final_validation"@.len());
}

proof fn lemma_validation_untouched(ms: Seq<AccountMeta>, st: ArgumentsView, which: bool)
    requires
        none_named(ms, validation_name(which)),
    ensures
        arguments_scan(ms, st) matches Ok(s) ==> validation_in(s, which) == validation_in(st, which),
    decreases ms.len(),
{
    if ms.len() > 0 {
        lemma_step_validation(ms[0], st, which);
        assert(ms[0].name@ != validation_name(which));
        if let Ok(next) = arguments_step(ms[0], st) {
            assert forall|k: int| 0 <= k < ms.drop_first().len() implies (#[trigger] ms.drop_first()[k]).name@
                != validation_name(which) by {
                assert(ms.drop_first()[k] == ms[k + 1]);
            }
            lemma_validation_untouched(ms.drop_first(), next, which);
        }
    }
}

proof fn lemma_last_validation(ms: Seq<AccountMeta>, st: ArgumentsView, which: bool, j: int)
    requires
        last_named(ms, validation_name(which), j),
    ensures
        arguments_scan(ms, st) matches Ok(s) ==> validation_in(s, which) == Some(validation_of_meta(ms[j])),
    decreases ms.len(),
{
    let rest = ms.drop_first();
    lemma_step_validation(ms[0], st, which);
    if let Ok(next) = arguments_step(ms[0], st) {
        if j == 0 {
            assert forall|k: int| 0 <= k < rest.len() implies (#[trigger] rest[k]).name@ != validation_name(which) by {
                assert(rest[k] == ms[k + 1]);
            }
            lemma_validation_untouched(rest, next, which);
        } else {
            assert(rest[j - 1] == ms[j]);
            assert forall|k: int| j - 1 < k < rest.len() implies (#[trigger] rest[k]).name@ != validation_name(which) by {
                assert(rest[k] == ms[k + 1]);
            }
            lemma_last_validation(rest, next, which, j - 1);
        }
    }
}

/// Law: among the `account` attributes of an accepted instruction-accounts
/// type, `args` is given at most once, and each validation is the one that
/// its last occurrence gives (none when it does not occur).
pub proof fn law_type_arguments(attrs: Seq<AccountAttribute>, which: bool, i: int, j: int)
    ensures
        attributes_scan(attrs, (None, None, None)) matches Ok(v) ==> {
            let ms = type_account_metas(attrs);
            &&& (0 <= i < j < ms.len() && ms[i].name@ == "args"@ ==> ms[j].name@ != "args"@)
            &&& (last_named(ms, validation_name(which), j) ==> validation_in(v, which) == Some(
                validation_of_meta(ms[j]),
            ))
            &&& (none_named(ms, validation_name(which)) ==> validation_in(v, which) is None)
        },
{
    if let Ok(v) = attributes_scan(attrs, (None, None, None)) {
        lemma_attributes_as_arguments(attrs, (None, None, None));
        let ms = type_account_metas(attrs);
        if 0 <= i < j < ms.len() && ms[i].name@ == "args"@ {
            lemma_no_args_twice(ms, (None, None, None), i, j);
        }
        if last_named(ms, validation_name(which), j) {
            lemma_last_validation(ms, (None, None, None), which, j);
        }
        if none_named(ms, validation_name(which)) {
            lemma_validation_untouched(ms, (None, None, None), which);
        }
    }
}

} // verus!
