//! The fields of an instruction-accounts struct or enum, and the rules of
//! their `#[account(...)]` attributes.
use vstd::prelude::*;

use crate::syntax::{same_text, FieldsShape, MetaValue};

verus! {

/// A generic argument of a type path.
#[derive(Debug, Clone, Copy, PartialEq, Eq)]
pub enum GenericArgInfo {
    /// The first argument in angle brackets is a type, identified by source.
    Type(usize),
    /// The first argument in angle brackets is not a type.
    NotType,
    /// The angle brackets hold no argument.
    Empty,
    /// The last segment has no angle-bracketed arguments.
    Absent,
}

/// The type of a field, as far as it is read.
#[derive(Debug, Clone, PartialEq, Eq)]
pub enum TypeInfo {
    /// A path type, by the identifier of its last segment and that segment's first generic argument.
    Path { last: String, first_arg: GenericArgInfo },
    /// Any other type.
    Other,
}

/// The kind of an account field.
#[derive(Debug, Clone, Copy, PartialEq, Eq)]
pub enum FieldKind {
    /// Any other type.
    Other,
    /// `Option<T>`, with `T` by source.
    Option(usize),
    /// `Vec<T>`, with `T` by source.
    Vec(usize),
    /// `Rest`.
    Rest,
}

/// The kind that a type gives.
pub open spec fn kind_of(ty: TypeInfo) -> FieldKind {
    match ty {
        TypeInfo::Path { last, first_arg } => if last@ == "Option"@ {
            match first_arg {
                GenericArgInfo::Type(t) => FieldKind::Option(t),
                _ => FieldKind::Other,
            }
        } else if last@ == "Vec"@ {
            match first_arg {
                GenericArgInfo::Type(t) => FieldKind::Vec(t),
                _ => FieldKind::Other,
            }
        } else if last@ == "Rest"@ {
            FieldKind::Rest
        } else {
            FieldKind::Other
        },
        TypeInfo::Other => FieldKind::Other,
    }
}

/// Whether telling the kind of the type does not panic: an `Option` or a
/// `Vec` path with empty angle brackets makes the macro panic.
pub open spec fn kind_readable(ty: TypeInfo) -> bool {
    match ty {
        TypeInfo::Path { last, first_arg } => !((last@ == "Option"@ || last@ == "Vec"@) && first_arg
            == GenericArgInfo::Empty),
        TypeInfo::Other => true,
    }
}

/// Tells the kind of an account field from its type: `Option<T>`, `Vec<T>`,
/// `Rest` or any other.
pub fn discriminate_type(ty: &TypeInfo) -> (r: FieldKind)
    requires
        kind_readable(*ty),
    ensures
        r == kind_of(*ty),
{
    match ty {
        TypeInfo::Path { last, first_arg } => {
            if same_text(last, "Option") {
                match first_arg {
                    GenericArgInfo::Type(t) => FieldKind::Option(*t),
                    _ => FieldKind::Other,
                }
            } else if same_text(last, "Vec") {
                match first_arg {
                    GenericArgInfo::Type(t) => FieldKind::Vec(*t),
                    _ => FieldKind::Other,
                }
            } else if same_text(last, "Rest") {
                FieldKind::Rest
            } else {
                FieldKind::Other
            }
        },
        TypeInfo::Other => FieldKind::Other,
    }
}

/// The arguments of the `#[account(...)]` attribute of a field.
#[derive(Debug, Clone, Copy, PartialEq, Eq)]
pub enum AccountArg {
    Owner,
    Address,
    Initialized,
    Writable,
    Executable,
    RentExempt,
    Signer,
    Min,
    Max,
    Size,
    Pda,
    PdaProgramId,
    AssociatedTokenPda,
    MetadataPda,
    Constraint,
    Data,
    Unknown,
}

/// The argument that a name stands for.
pub open spec fn arg_of(name: Seq<char>) -> AccountArg {
    if name == "owner"@ {
        AccountArg::Owner
    } else if name == "address"@ {
        AccountArg::Address
    } else if name == "initialized"@ {
        AccountArg::Initialized
    } else if name == "writable"@ {
        AccountArg::Writable
    } else if name == "executable"@ {
        AccountArg::Executable
    } else if name == "rent_exempt"@ {
        AccountArg::RentExempt
    } else if name == "signer"@ {
        AccountArg::Signer
    } else if name == "min"@ {
        AccountArg::Min
    } else if name == "max"@ {
        AccountArg::Max
    } else if name == "size"@ {
        AccountArg::Size
    } else if name == "pda"@ {
        AccountArg::Pda
    } else if name == "pda_program_id"@ {
        AccountArg::PdaProgramId
    } else if name == "associated_token_pda"@ {
        AccountArg::AssociatedTokenPda
    } else if name == "metadata_pda"@ {
        AccountArg::MetadataPda
    } else if name == "constraint"@ {
        AccountArg::Constraint
    } else if name == "data"@ {
        AccountArg::Data
    } else {
        AccountArg::Unknown
    }
}

impl AccountArg {
    /// The argument that `name` stands for.
    pub fn from_name(name: &String) -> (r: AccountArg)
        ensures
            r == arg_of(name@),
    {
        if same_text(name, "owner") {
            AccountArg::Owner
        } else if same_text(name, "address") {
            AccountArg::Address
        } else if same_text(name, "initialized") {
            AccountArg::Initialized
        } else if same_text(name, "writable") {
            AccountArg::Writable
        } else if same_text(name, "executable") {
            AccountArg::Executable
        } else if same_text(name, "rent_exempt") {
            AccountArg::RentExempt
        } else if same_text(name, "signer") {
            AccountArg::Signer
        } else if same_text(name, "min") {
            AccountArg::Min
        } else if same_text(name, "max") {
            AccountArg::Max
        } else if same_text(name, "size") {
            AccountArg::Size
        } else if same_text(name, "pda") {
            AccountArg::Pda
        } else if same_text(name, "pda_program_id") {
            AccountArg::PdaProgramId
        } else if same_text(name, "associated_token_pda") {
            AccountArg::AssociatedTokenPda
        } else if same_text(name, "metadata_pda") {
            AccountArg::MetadataPda
        } else if same_text(name, "constraint") {
            AccountArg::Constraint
        } else if same_text(name, "data") {
            AccountArg::Data
        } else {
            AccountArg::Unknown
        }
    }
}

/// One argument of an `#[account(...)]` attribute: `name`, `name = value`,
/// `data::name = value`, each optionally followed by `@ error`.
pub struct AccountMeta {
    /// Identifies the argument for the caller.
    pub source: usize,
    /// The argument's name.
    pub name: String,
    /// For `data::name`, the name after `::`.
    pub sub_name: Option<String>,
    /// The value after `=`, if any.
    pub value: Option<MetaValue>,
    /// The error expression after `@`, by source, if any.
    pub error: Option<usize>,
}

/// An attribute of an account field.
pub struct AccountAttribute {
    /// Identifies the attribute for the caller.
    pub source: usize,
    /// Whether the attribute is `#[account(...)]`; other attributes are skipped.
    pub is_account: bool,
    /// The arguments, or `None` when they do not parse.
    pub args: Option<Vec<AccountMeta>>,
}

/// A value that a field's attribute sets.
#[derive(Debug, Clone, Copy, PartialEq, Eq)]
pub enum FieldValue {
    /// The value of the argument with this source.
    Expr(usize),
    /// The literal `true`.
    True,
    /// The associated-token seeds built from the tuple value of the argument with this source.
    AssociatedTokenSeeds(usize),
    /// The address of the associated-token program.
    AssociatedTokenAddress,
    /// The address of the metadata program.
    MetadataAddress,
}

/// A value with an optional error expression (by source).
#[derive(Debug, Clone, Copy, PartialEq, Eq)]
pub struct DataAndError {
    /// The value.
    pub data: FieldValue,
    /// The error expression, by source.
    pub error: Option<usize>,
}

/// A named value, `data::name = value`.
pub struct Data {
    /// The name.
    pub name: String,
    /// The value, by the source of its argument.
    pub value: usize,
}

/// A field of an instruction-accounts type.
pub struct Field {
    /// Identifies the field for the caller.
    pub source: usize,
    /// The field's name.
    pub name: String,
    /// The field's kind.
    pub kind: FieldKind,
    pub owner: Option<FieldValue>,
    pub address: Option<FieldValue>,
    pub initialized: Option<FieldValue>,
    pub writable: Option<FieldValue>,
    pub executable: Option<FieldValue>,
    pub rent_exempt: Option<FieldValue>,
    pub signer: Option<FieldValue>,
    pub min: Option<FieldValue>,
    pub max: Option<FieldValue>,
    pub pda: Option<DataAndError>,
    pub pda_program_id: Option<FieldValue>,
    pub constraints: Vec<DataAndError>,
    pub data: Vec<Data>,
}

/// The settings that the attributes of a field give.
pub struct FieldAttrs {
    pub owner: Option<FieldValue>,
    pub address: Option<FieldValue>,
    pub initialized: Option<FieldValue>,
    pub writable: Option<FieldValue>,
    pub executable: Option<FieldValue>,
    pub rent_exempt: Option<FieldValue>,
    pub signer: Option<FieldValue>,
    pub min: Option<FieldValue>,
    pub max: Option<FieldValue>,
    pub pda: Option<DataAndError>,
    pub pda_program_id: Option<FieldValue>,
    pub constraints: Seq<DataAndError>,
    pub data: Seq<(Seq<char>, usize)>,
    /// Whether a `size` argument was read.
    pub size_attr: bool,
}

/// The settings of a field, with the flag telling whether `size` was read.
pub open spec fn field_attrs(f: Field, size_attr: bool) -> FieldAttrs {
    FieldAttrs {
        owner: f.owner,
        address: f.address,
        initialized: f.initialized,
        writable: f.writable,
        executable: f.executable,
        rent_exempt: f.rent_exempt,
        signer: f.signer,
        min: f.min,
        max: f.max,
        pda: f.pda,
        pda_program_id: f.pda_program_id,
        constraints: f.constraints@,
        data: f.data@.map_values(|d: Data| (d.name@, d.value)),
        size_attr,
    }
}

/// The settings before any attribute is read.
pub open spec fn no_attrs() -> FieldAttrs {
    FieldAttrs {
        owner: None,
        address: None,
        initialized: None,
        writable: None,
        executable: None,
        rent_exempt: None,
        signer: None,
        min: None,
        max: None,
        pda: None,
        pda_program_id: None,
        constraints: Seq::empty(),
        data: Seq::empty(),
        size_attr: false,
    }
}

/// Why the attributes of a field are refused.
#[derive(Debug, Clone, Copy, PartialEq, Eq)]
pub enum FieldAttrErrorKind {
    /// The `account` attribute's arguments do not parse.
    ExpectsArguments,
    /// The argument is not allowed on an enum variant.
    NotAllowedInEnum(AccountArg),
    /// The argument is given twice.
    DefinedTwice(AccountArg),
    /// The argument cannot have an error expression.
    NoErrorField(AccountArg),
    /// The argument (`min` or `max`) cannot be used with `size`.
    IncompatibleWithSize(AccountArg),
    /// `size` cannot be used with `min` or `max`.
    SizeIncompatibleWithMinMax,
    /// The argument cannot be used with `pda_program_id`.
    IncompatibleWithPdaProgramId(AccountArg),
    /// `associated_token_pda` must be a tuple of two elements.
    NotTupleOfTwo,
    /// `data` must be written `data::<name> = <value>`.
    DataNeedsName,
    /// The argument must have a value.
    MustUseValue(AccountArg),
    /// The argument is not known.
    UnknownArgument,
    /// `pda_program_id` is given without `pda`.
    ProgramIdWithoutPda,
}

/// The attributes of a field are refused at the element with this source.
#[derive(Debug, Clone, Copy, PartialEq, Eq)]
pub struct FieldAttrError {
    /// The argument or attribute, by source.
    pub source: usize,
    /// The reason.
    pub kind: FieldAttrErrorKind,
}

/// A refusal at `source`.
pub open spec fn refuse(source: usize, kind: FieldAttrErrorKind) -> Result<FieldAttrs, FieldAttrError> {
    Err(FieldAttrError { source, kind })
}

/// The refusal, if any, of a setting that may be given once, only on struct
/// fields, and without an error expression.
pub open spec fn single_check(is_enum: bool, set: bool, has_error: bool, arg: AccountArg) -> Option<FieldAttrErrorKind> {
    if is_enum {
        Some(FieldAttrErrorKind::NotAllowedInEnum(arg))
    } else if set {
        Some(FieldAttrErrorKind::DefinedTwice(arg))
    } else if has_error {
        Some(FieldAttrErrorKind::NoErrorField(arg))
    } else {
        None
    }
}

/// Reads one argument with a value.
pub open spec fn valued_step(m: AccountMeta, st: FieldAttrs, is_enum: bool) -> Result<FieldAttrs, FieldAttrError> {
    let src = m.source;
    let v = FieldValue::Expr(src);
    let he = m.error is Some;
    let arg = arg_of(m.name@);
    match arg {
        AccountArg::Owner => match single_check(is_enum, st.owner is Some, he, arg) {
            Some(k) => refuse(src, k),
            None => Ok(FieldAttrs { owner: Some(v), ..st }),
        },
        AccountArg::Address => match single_check(is_enum, st.address is Some, he, arg) {
            Some(k) => refuse(src, k),
            None => Ok(FieldAttrs { address: Some(v), ..st }),
        },
        AccountArg::Initialized => match single_check(is_enum, st.initialized is Some, he, arg) {
            Some(k) => refuse(src, k),
            None => Ok(FieldAttrs { initialized: Some(v), ..st }),
        },
        AccountArg::Writable => match single_check(is_enum, st.writable is Some, he, arg) {
            Some(k) => refuse(src, k),
            None => Ok(FieldAttrs { writable: Some(v), ..st }),
        },
        AccountArg::Executable => match single_check(is_enum, st.executable is Some, he, arg) {
            Some(k) => refuse(src, k),
            None => Ok(FieldAttrs { executable: Some(v), ..st }),
        },
        AccountArg::RentExempt => match single_check(is_enum, st.rent_exempt is Some, he, arg) {
            Some(k) => refuse(src, k),
            None => Ok(FieldAttrs { rent_exempt: Some(v), ..st }),
        },
        AccountArg::Signer => match single_check(is_enum, st.signer is Some, he, arg) {
            Some(k) => refuse(src, k),
            None => Ok(FieldAttrs { signer: Some(v), ..st }),
        },
        AccountArg::Min => if is_enum {
            refuse(src, FieldAttrErrorKind::NotAllowedInEnum(arg))
        } else if st.size_attr {
            refuse(src, FieldAttrErrorKind::IncompatibleWithSize(arg))
        } else if st.min is Some {
            refuse(src, FieldAttrErrorKind::DefinedTwice(arg))
        } else if he {
            refuse(src, FieldAttrErrorKind::NoErrorField(arg))
        } else {
            Ok(FieldAttrs { min: Some(v), ..st })
        },
        AccountArg::Max => if is_enum {
            refuse(src, FieldAttrErrorKind::NotAllowedInEnum(arg))
        } else if st.size_attr {
            refuse(src, FieldAttrErrorKind::IncompatibleWithSize(arg))
        } else if st.max is Some {
            refuse(src, FieldAttrErrorKind::DefinedTwice(arg))
        } else if he {
            refuse(src, FieldAttrErrorKind::NoErrorField(arg))
        } else {
            Ok(FieldAttrs { max: Some(v), ..st })
        },
        AccountArg::Size => if is_enum {
            refuse(src, FieldAttrErrorKind::NotAllowedInEnum(arg))
        } else if st.size_attr {
            refuse(src, FieldAttrErrorKind::DefinedTwice(arg))
        } else if st.min is Some || st.max is Some {
            refuse(src, FieldAttrErrorKind::SizeIncompatibleWithMinMax)
        } else if he {
            refuse(src, FieldAttrErrorKind::NoErrorField(arg))
        } else {
            Ok(FieldAttrs { min: Some(v), max: Some(v), size_attr: true, ..st })
        },
        AccountArg::Pda => if is_enum {
            refuse(src, FieldAttrErrorKind::NotAllowedInEnum(arg))
        } else if st.pda is Some {
            refuse(src, FieldAttrErrorKind::DefinedTwice(arg))
        } else {
            Ok(FieldAttrs { pda: Some(DataAndError { data: v, error: m.error }), ..st })
        },
        AccountArg::PdaProgramId => match single_check(is_enum, st.pda_program_id is Some, he, arg) {
            Some(k) => refuse(src, k),
            None => Ok(FieldAttrs { pda_program_id: Some(v), ..st }),
        },
        AccountArg::AssociatedTokenPda => if is_enum {
            refuse(src, FieldAttrErrorKind::NotAllowedInEnum(arg))
        } else if st.pda is Some {
            refuse(src, FieldAttrErrorKind::DefinedTwice(arg))
        } else if st.pda_program_id is Some {
            refuse(src, FieldAttrErrorKind::IncompatibleWithPdaProgramId(arg))
        } else if he {
            refuse(src, FieldAttrErrorKind::NoErrorField(arg))
        } else if m.value matches Some(MetaValue::Tuple(n)) && n == 2 {
            Ok(
                FieldAttrs {
                    pda: Some(DataAndError { data: FieldValue::AssociatedTokenSeeds(src), error: None }),
                    pda_program_id: Some(FieldValue::AssociatedTokenAddress),
                    ..st
                },
            )
        } else {
            refuse(src, FieldAttrErrorKind::NotTupleOfTwo)
        },
        AccountArg::MetadataPda => if is_enum {
            refuse(src, FieldAttrErrorKind::NotAllowedInEnum(arg))
        } else if st.pda is Some {
            refuse(src, FieldAttrErrorKind::DefinedTwice(arg))
        } else if st.pda_program_id is Some {
            refuse(src, FieldAttrErrorKind::IncompatibleWithPdaProgramId(arg))
        } else {
            Ok(
                FieldAttrs {
                    pda: Some(DataAndError { data: v, error: m.error }),
                    pda_program_id: Some(FieldValue::MetadataAddress),
                    ..st
                },
            )
        },
        AccountArg::Constraint => if is_enum {
            refuse(src, FieldAttrErrorKind::NotAllowedInEnum(arg))
        } else {
            Ok(FieldAttrs { constraints: st.constraints.push(DataAndError { data: v, error: m.error }), ..st })
        },
        AccountArg::Data => if is_enum {
            refuse(src, FieldAttrErrorKind::NotAllowedInEnum(arg))
        } else if he {
            refuse(src, FieldAttrErrorKind::NoErrorField(arg))
        } else {
            match m.sub_name {
                Some(n) => Ok(FieldAttrs { data: st.data.push((n@, src)), ..st }),
                None => refuse(src, FieldAttrErrorKind::DataNeedsName),
            }
        },
        AccountArg::Unknown => refuse(src, FieldAttrErrorKind::UnknownArgument),
    }
}

/// Reads one argument without a value.
pub open spec fn plain_step(m: AccountMeta, st: FieldAttrs, is_enum: bool) -> Result<FieldAttrs, FieldAttrError> {
    let src = m.source;
    let t = FieldValue::True;
    let he = m.error is Some;
    let arg = arg_of(m.name@);
    match arg {
        AccountArg::Initialized => match single_check(is_enum, st.initialized is Some, he, arg) {
            Some(k) => refuse(src, k),
            None => Ok(FieldAttrs { initialized: Some(t), ..st }),
        },
        AccountArg::Writable => match single_check(is_enum, st.writable is Some, he, arg) {
            Some(k) => refuse(src, k),
            None => Ok(FieldAttrs { writable: Some(t), ..st }),
        },
        AccountArg::Executable => match single_check(is_enum, st.executable is Some, he, arg) {
            Some(k) => refuse(src, k),
            None => Ok(FieldAttrs { executable: Some(t), ..st }),
        },
        AccountArg::RentExempt => match single_check(is_enum, st.rent_exempt is Some, he, arg) {
            Some(k) => refuse(src, k),
            None => Ok(FieldAttrs { rent_exempt: Some(t), ..st }),
        },
        AccountArg::Signer => match single_check(is_enum, st.signer is Some, he, arg) {
            Some(k) => refuse(src, k),
            None => Ok(FieldAttrs { signer: Some(t), ..st }),
        },
        AccountArg::Unknown => refuse(src, FieldAttrErrorKind::UnknownArgument),
        _ => refuse(src, FieldAttrErrorKind::MustUseValue(arg)),
    }
}

/// Reads one argument.
pub open spec fn meta_step(m: AccountMeta, st: FieldAttrs, is_enum: bool) -> Result<FieldAttrs, FieldAttrError> {
    if m.value is Some {
        valued_step(m, st, is_enum)
    } else {
        plain_step(m, st, is_enum)
    }
}

/// Reads the arguments of one attribute in order.
pub open spec fn metas_scan(metas: Seq<AccountMeta>, st: FieldAttrs, is_enum: bool) -> Result<FieldAttrs, FieldAttrError>
    decreases metas.len(),
{
    if metas.len() == 0 {
        Ok(st)
    } else {
        match meta_step(metas[0], st, is_enum) {
            Ok(st2) => metas_scan(metas.drop_first(), st2, is_enum),
            Err(e) => Err(e),
        }
    }
}

/// Reads one attribute.
pub open spec fn attribute_step(a: AccountAttribute, st: FieldAttrs, is_enum: bool) -> Result<FieldAttrs, FieldAttrError> {
    if !a.is_account {
        Ok(st)
    } else {
        match a.args {
            None => refuse(a.source, FieldAttrErrorKind::ExpectsArguments),
            Some(metas) => metas_scan(metas@, st, is_enum),
        }
    }
}

/// Reads the first `n` attributes, from the last of them to the first.
pub open spec fn attributes_scan(attrs: Seq<AccountAttribute>, n: nat, st: FieldAttrs, is_enum: bool) -> Result<FieldAttrs, FieldAttrError>
    decreases n,
{
    if n == 0 {
        Ok(st)
    } else {
        match attribute_step(attrs[n - 1], st, is_enum) {
            Ok(st2) => attributes_scan(attrs, (n - 1) as nat, st2, is_enum),
            Err(e) => Err(e),
        }
    }
}

/// Reads all the attributes of a field, the last one first, and checks that
/// `pda_program_id` comes with `pda`.
pub open spec fn field_attrs_spec(attrs: Seq<AccountAttribute>, st: FieldAttrs, is_enum: bool) -> Result<FieldAttrs, FieldAttrError> {
    match attributes_scan(attrs, attrs.len(), st, is_enum) {
        Err(e) => Err(e),
        Ok(st2) => match st2.pda_program_id {
            Some(FieldValue::Expr(src)) => if st2.pda is None {
                refuse(src, FieldAttrErrorKind::ProgramIdWithoutPda)
            } else {
                Ok(st2)
            },
            _ => Ok(st2),
        },
    }
}

fn single_check_exec(is_enum: bool, set: bool, has_error: bool, arg: AccountArg) -> (r: Option<FieldAttrErrorKind>)
    ensures
        r == single_check(is_enum, set, has_error, arg),
{
    if is_enum {
        Some(FieldAttrErrorKind::NotAllowedInEnum(arg))
    } else if set {
        Some(FieldAttrErrorKind::DefinedTwice(arg))
    } else if has_error {
        Some(FieldAttrErrorKind::NoErrorField(arg))
    } else {
        None
    }
}

impl Field {
    fn single_valued(&mut self, size_attr: &mut bool, m: &AccountMeta, is_enum: bool, arg: AccountArg) -> (r: Result<(), FieldAttrError>)
        requires
            m.value is Some,
            arg == arg_of(m.name@),
            arg == AccountArg::Owner || arg == AccountArg::Address || arg == AccountArg::Initialized
                || arg == AccountArg::Writable || arg == AccountArg::Executable || arg == AccountArg::RentExempt
                || arg == AccountArg::Signer || arg == AccountArg::PdaProgramId,
        ensures
            *final(size_attr) == *old(size_attr),
            final(self).source == old(self).source,
            final(self).name == old(self).name,
            final(self).kind == old(self).kind,
            match r {
                Ok(()) => valued_step(*m, field_attrs(*old(self), *old(size_attr)), is_enum) == Ok::<FieldAttrs, FieldAttrError>(
                    field_attrs(*final(self), *final(size_attr)),
                ),
                Err(e) => valued_step(*m, field_attrs(*old(self), *old(size_attr)), is_enum) == Err::<FieldAttrs, FieldAttrError>(e),
            },
    {
        let src = m.source;
        let he = m.error.is_some();
        let v = FieldValue::Expr(src);
        let set = match arg {
            AccountArg::Owner => self.owner.is_some(),
            AccountArg::Address => self.address.is_some(),
            AccountArg::Initialized => self.initialized.is_some(),
            AccountArg::Writable => self.writable.is_some(),
            AccountArg::Executable => self.executable.is_some(),
            AccountArg::RentExempt => self.rent_exempt.is_some(),
            AccountArg::Signer => self.signer.is_some(),
            _ => self.pda_program_id.is_some(),
        };
        if let Some(k) = single_check_exec(is_enum, set, he, arg) {
            return Err(FieldAttrError { source: src, kind: k });
        }
        match arg {
            AccountArg::Owner => { self.owner = Some(v); },
            AccountArg::Address => { self.address = Some(v); },
            AccountArg::Initialized => { self.initialized = Some(v); },
            AccountArg::Writable => { self.writable = Some(v); },
            AccountArg::Executable => { self.executable = Some(v); },
            AccountArg::RentExempt => { self.rent_exempt = Some(v); },
            AccountArg::Signer => { self.signer = Some(v); },
            _ => { self.pda_program_id = Some(v); },
        }
        Ok(())
    }

    fn size_valued(&mut self, size_attr: &mut bool, m: &AccountMeta, is_enum: bool, arg: AccountArg) -> (r: Result<(), FieldAttrError>)
        requires
            m.value is Some,
            arg == arg_of(m.name@),
            arg == AccountArg::Min || arg == AccountArg::Max || arg == AccountArg::Size,
        ensures
            final(self).source == old(self).source,
            final(self).name == old(self).name,
            final(self).kind == old(self).kind,
            match r {
                Ok(()) => valued_step(*m, field_attrs(*old(self), *old(size_attr)), is_enum) == Ok::<FieldAttrs, FieldAttrError>(
                    field_attrs(*final(self), *final(size_attr)),
                ),
                Err(e) => valued_step(*m, field_attrs(*old(self), *old(size_attr)), is_enum) == Err::<FieldAttrs, FieldAttrError>(e),
            },
    {
        let src = m.source;
        let he = m.error.is_some();
        let v = FieldValue::Expr(src);
        if is_enum {
            return Err(FieldAttrError { source: src, kind: FieldAttrErrorKind::NotAllowedInEnum(arg) });
        }
        match arg {
            AccountArg::Min => {
                if *size_attr { return Err(FieldAttrError { source: src, kind: FieldAttrErrorKind::IncompatibleWithSize(arg) }); }
                if self.min.is_some() { return Err(FieldAttrError { source: src, kind: FieldAttrErrorKind::DefinedTwice(arg) }); }
                if he { return Err(FieldAttrError { source: src, kind: FieldAttrErrorKind::NoErrorField(arg) }); }
                self.min = Some(v);
            },
            AccountArg::Max => {
                if *size_attr { return Err(FieldAttrError { source: src, kind: FieldAttrErrorKind::IncompatibleWithSize(arg) }); }
                if self.max.is_some() { return Err(FieldAttrError { source: src, kind: FieldAttrErrorKind::DefinedTwice(arg) }); }
                if he { return Err(FieldAttrError { source: src, kind: FieldAttrErrorKind::NoErrorField(arg) }); }
                self.max = Some(v);
            },
            _ => {
                if *size_attr { return Err(FieldAttrError { source: src, kind: FieldAttrErrorKind::DefinedTwice(arg) }); }
                if self.min.is_some() || self.max.is_some() {
                    return Err(FieldAttrError { source: src, kind: FieldAttrErrorKind::SizeIncompatibleWithMinMax });
                }
                if he { return Err(FieldAttrError { source: src, kind: FieldAttrErrorKind::NoErrorField(arg) }); }
                self.min = Some(v);
                self.max = Some(v);
                *size_attr = true;
            },
        }
        Ok(())
    }

    fn pda_valued(&mut self, size_attr: &mut bool, m: &AccountMeta, is_enum: bool, arg: AccountArg) -> (r: Result<(), FieldAttrError>)
        requires
            m.value is Some,
            arg == arg_of(m.name@),
            arg == AccountArg::Pda || arg == AccountArg::AssociatedTokenPda || arg == AccountArg::MetadataPda,
        ensures
            *final(size_attr) == *old(size_attr),
            final(self).source == old(self).source,
            final(self).name == old(self).name,
            final(self).kind == old(self).kind,
            match r {
                Ok(()) => valued_step(*m, field_attrs(*old(self), *old(size_attr)), is_enum) == Ok::<FieldAttrs, FieldAttrError>(
                    field_attrs(*final(self), *final(size_attr)),
                ),
                Err(e) => valued_step(*m, field_attrs(*old(self), *old(size_attr)), is_enum) == Err::<FieldAttrs, FieldAttrError>(e),
            },
    {
        let src = m.source;
        let he = m.error.is_some();
        let v = FieldValue::Expr(src);
        if is_enum {
            return Err(FieldAttrError { source: src, kind: FieldAttrErrorKind::NotAllowedInEnum(arg) });
        }
        if self.pda.is_some() {
            return Err(FieldAttrError { source: src, kind: FieldAttrErrorKind::DefinedTwice(arg) });
        }
        match arg {
            AccountArg::Pda => {
                self.pda = Some(DataAndError { data: v, error: m.error });
            },
            AccountArg::AssociatedTokenPda => {
                if self.pda_program_id.is_some() {
                    return Err(FieldAttrError { source: src, kind: FieldAttrErrorKind::IncompatibleWithPdaProgramId(arg) });
                }
                if he { return Err(FieldAttrError { source: src, kind: FieldAttrErrorKind::NoErrorField(arg) }); }
                let is_pair = match &m.value {
                    Some(MetaValue::Tuple(n)) => *n == 2,
                    _ => false,
                };
                if !is_pair { return Err(FieldAttrError { source: src, kind: FieldAttrErrorKind::NotTupleOfTwo }); }
                self.pda = Some(DataAndError { data: FieldValue::AssociatedTokenSeeds(src), error: None });
                self.pda_program_id = Some(FieldValue::AssociatedTokenAddress);
            },
            _ => {
                if self.pda_program_id.is_some() {
                    return Err(FieldAttrError { source: src, kind: FieldAttrErrorKind::IncompatibleWithPdaProgramId(arg) });
                }
                self.pda = Some(DataAndError { data: v, error: m.error });
                self.pda_program_id = Some(FieldValue::MetadataAddress);
            },
        }
        Ok(())
    }

    fn list_valued(&mut self, size_attr: &mut bool, m: &AccountMeta, is_enum: bool, arg: AccountArg) -> (r: Result<(), FieldAttrError>)
        requires
            m.value is Some,
            arg == arg_of(m.name@),
            arg == AccountArg::Constraint || arg == AccountArg::Data || arg == AccountArg::Unknown,
        ensures
            *final(size_attr) == *old(size_attr),
            final(self).source == old(self).source,
            final(self).name == old(self).name,
            final(self).kind == old(self).kind,
            match r {
                Ok(()) => valued_step(*m, field_attrs(*old(self), *old(size_attr)), is_enum) == Ok::<FieldAttrs, FieldAttrError>(
                    field_attrs(*final(self), *final(size_attr)),
                ),
                Err(e) => valued_step(*m, field_attrs(*old(self), *old(size_attr)), is_enum) == Err::<FieldAttrs, FieldAttrError>(e),
            },
    {
        let src = m.source;
        let he = m.error.is_some();
        let v = FieldValue::Expr(src);
        match arg {
            AccountArg::Constraint => {
                if is_enum { return Err(FieldAttrError { source: src, kind: FieldAttrErrorKind::NotAllowedInEnum(arg) }); }
                self.constraints.push(DataAndError { data: v, error: m.error });
            },
            AccountArg::Data => {
                if is_enum { return Err(FieldAttrError { source: src, kind: FieldAttrErrorKind::NotAllowedInEnum(arg) }); }
                if he { return Err(FieldAttrError { source: src, kind: FieldAttrErrorKind::NoErrorField(arg) }); }
                match &m.sub_name {
                    Some(n) => {
                        let ghost before = self.data@;
                        self.data.push(Data { name: n.clone(), value: src });
                        assert(self.data@.map_values(|d: Data| (d.name@, d.value)) =~= before.map_values(|d: Data| (d.name@, d.value)).push((n@, src)));
                    },
                    None => { return Err(FieldAttrError { source: src, kind: FieldAttrErrorKind::DataNeedsName }); },
                }
            },
            _ => { return Err(FieldAttrError { source: src, kind: FieldAttrErrorKind::UnknownArgument }); },
        }
        Ok(())
    }

    fn plain(&mut self, size_attr: &mut bool, m: &AccountMeta, is_enum: bool, arg: AccountArg) -> (r: Result<(), FieldAttrError>)
        requires
            m.value is None,
            arg == arg_of(m.name@),
        ensures
            *final(size_attr) == *old(size_attr),
            final(self).source == old(self).source,
            final(self).name == old(self).name,
            final(self).kind == old(self).kind,
            match r {
                Ok(()) => plain_step(*m, field_attrs(*old(self), *old(size_attr)), is_enum) == Ok::<FieldAttrs, FieldAttrError>(
                    field_attrs(*final(self), *final(size_attr)),
                ),
                Err(e) => plain_step(*m, field_attrs(*old(self), *old(size_attr)), is_enum) == Err::<FieldAttrs, FieldAttrError>(e),
            },
    {
        let src = m.source;
        let he = m.error.is_some();
        let t = FieldValue::True;
        match arg {
            AccountArg::Initialized | AccountArg::Writable | AccountArg::Executable | AccountArg::RentExempt
            | AccountArg::Signer => {},
            AccountArg::Unknown => { return Err(FieldAttrError { source: src, kind: FieldAttrErrorKind::UnknownArgument }); },
            _ => { return Err(FieldAttrError { source: src, kind: FieldAttrErrorKind::MustUseValue(arg) }); },
        }
        let set = match arg {
            AccountArg::Initialized => self.initialized.is_some(),
            AccountArg::Writable => self.writable.is_some(),
            AccountArg::Executable => self.executable.is_some(),
            AccountArg::RentExempt => self.rent_exempt.is_some(),
            _ => self.signer.is_some(),
        };
        if let Some(k) = single_check_exec(is_enum, set, he, arg) {
            return Err(FieldAttrError { source: src, kind: k });
        }
        match arg {
            AccountArg::Initialized => { self.initialized = Some(t); },
            AccountArg::Writable => { self.writable = Some(t); },
            AccountArg::Executable => { self.executable = Some(t); },
            AccountArg::RentExempt => { self.rent_exempt = Some(t); },
            _ => { self.signer = Some(t); },
        }
        Ok(())
    }

    /// Reads one argument of an `account` attribute into the field.
    fn meta_step(&mut self, size_attr: &mut bool, m: &AccountMeta, is_enum: bool) -> (r: Result<(), FieldAttrError>)
        ensures
            final(self).source == old(self).source,
            final(self).name == old(self).name,
            final(self).kind == old(self).kind,
            match r {
                Ok(()) => meta_step(*m, field_attrs(*old(self), *old(size_attr)), is_enum) == Ok::<FieldAttrs, FieldAttrError>(
                    field_attrs(*final(self), *final(size_attr)),
                ),
                Err(e) => meta_step(*m, field_attrs(*old(self), *old(size_attr)), is_enum) == Err::<FieldAttrs, FieldAttrError>(e),
            },
    {
        let arg = AccountArg::from_name(&m.name);
        if m.value.is_some() {
            match arg {
                AccountArg::Owner | AccountArg::Address | AccountArg::Initialized | AccountArg::Writable
                | AccountArg::Executable | AccountArg::RentExempt | AccountArg::Signer | AccountArg::PdaProgramId => {
                    self.single_valued(size_attr, m, is_enum, arg)
                },
                AccountArg::Min | AccountArg::Max | AccountArg::Size => self.size_valued(size_attr, m, is_enum, arg),
                AccountArg::Pda | AccountArg::AssociatedTokenPda | AccountArg::MetadataPda => {
                    self.pda_valued(size_attr, m, is_enum, arg)
                },
                _ => self.list_valued(size_attr, m, is_enum, arg),
            }
        } else {
            self.plain(size_attr, m, is_enum, arg)
        }
    }
}


impl Field {
    /// Reads the arguments of one `account` attribute into the field.
    fn read_metas(&mut self, size_attr: &mut bool, metas: &Vec<AccountMeta>, is_enum: bool) -> (r: Result<(), FieldAttrError>)
        ensures
            final(self).source == old(self).source,
            final(self).name == old(self).name,
            final(self).kind == old(self).kind,
            match r {
                Ok(()) => metas_scan(metas@, field_attrs(*old(self), *old(size_attr)), is_enum) == Ok::<FieldAttrs, FieldAttrError>(
                    field_attrs(*final(self), *final(size_attr)),
                ),
                Err(e) => metas_scan(metas@, field_attrs(*old(self), *old(size_attr)), is_enum) == Err::<FieldAttrs, FieldAttrError>(e),
            },
    {
        let ghost st0 = field_attrs(*self, *size_attr);
        let mut j: usize = 0;
        assert(metas@.skip(0) =~= metas@);
        while j < metas.len()
            invariant
                0 <= j <= metas@.len(),
                self.source == old(self).source,
                self.name == old(self).name,
                self.kind == old(self).kind,
                st0 == field_attrs(*old(self), *old(size_attr)),
                metas_scan(metas@, st0, is_enum) == metas_scan(metas@.skip(j as int), field_attrs(*self, *size_attr), is_enum),
            decreases metas@.len() - j,
        {
            assert(metas@.skip(j as int)[0] == metas@[j as int]);
            assert(metas@.skip(j as int).drop_first() =~= metas@.skip(j + 1));
            match self.meta_step(size_attr, &metas[j], is_enum) {
                Ok(()) => {},
                Err(e) => return Err(e),
            }
            j = j + 1;
        }
        assert(metas@.skip(j as int) =~= Seq::<AccountMeta>::empty());
        Ok(())
    }

    /// Reads the `#[account(...)]` attributes of the field, the last one
    /// first, and checks that `pda_program_id` comes with `pda`.
    fn parse_attributes(&mut self, attributes: Vec<AccountAttribute>, is_enum: bool) -> (r: Result<(), FieldAttrError>)
        ensures
            final(self).source == old(self).source,
            final(self).name == old(self).name,
            final(self).kind == old(self).kind,
            match r {
                Ok(()) => exists|size_attr: bool| field_attrs_spec(attributes@, field_attrs(*old(self), false), is_enum)
                    == Ok::<FieldAttrs, FieldAttrError>(field_attrs(*final(self), size_attr)),
                Err(e) => field_attrs_spec(attributes@, field_attrs(*old(self), false), is_enum) == Err::<FieldAttrs, FieldAttrError>(e),
            },
    {
        let ghost orig = attributes@;
        let ghost st0 = field_attrs(*self, false);
        let mut attrs = attributes;
        let mut size_attr = false;
        while attrs.len() > 0
            invariant
                orig == attributes@,
                attrs@.len() <= orig.len(),
                forall|k: int| 0 <= k < attrs@.len() ==> attrs@[k] == orig[k],
                self.source == old(self).source,
                self.name == old(self).name,
                self.kind == old(self).kind,
                st0 == field_attrs(*old(self), false),
                attributes_scan(orig, orig.len(), st0, is_enum) == attributes_scan(
                    orig,
                    attrs@.len(),
                    field_attrs(*self, size_attr),
                    is_enum,
                ),
            decreases attrs@.len(),
        {
            let ghost n = attrs@.len();
            let attribute = attrs.pop().unwrap();
            assert(attribute == orig[n - 1]);
            if !attribute.is_account {
                continue;
            }
            match &attribute.args {
                None => {
                    return Err(FieldAttrError { source: attribute.source, kind: FieldAttrErrorKind::ExpectsArguments });
                },
                Some(metas) => {
                    match self.read_metas(&mut size_attr, metas, is_enum) {
                        Ok(()) => {},
                        Err(e) => return Err(e),
                    }
                },
            }
        }
        let ghost fin = field_attrs(*self, size_attr);
        match self.pda_program_id {
            Some(FieldValue::Expr(src)) => {
                if self.pda.is_none() {
                    return Err(FieldAttrError { source: src, kind: FieldAttrErrorKind::ProgramIdWithoutPda });
                }
            },
            _ => {},
        }
        assert(field_attrs_spec(orig, st0, is_enum) == Ok::<FieldAttrs, FieldAttrError>(fin));
        Ok(())
    }
}

/// A named field of an instruction-accounts struct.
pub struct FieldInfo {
    /// Identifies the field for the caller.
    pub source: usize,
    /// The field's name; fields of a struct with named fields have one.
    pub name: Option<String>,
    /// The field's type.
    pub ty: TypeInfo,
    /// The field's attributes, in source order.
    pub attrs: Vec<AccountAttribute>,
}

/// A variant of an instruction-accounts enum.
pub struct FieldVariantInfo {
    /// Identifies the variant for the caller.
    pub source: usize,
    /// The variant's name.
    pub name: String,
    /// The variant's fields.
    pub fields: FieldsShape,
    /// The types of its unnamed fields, in order.
    pub unnamed_types: Vec<TypeInfo>,
    /// The variant's attributes, in source order.
    pub attrs: Vec<AccountAttribute>,
}

/// Why a field or variant is refused.
#[derive(Debug, Clone, Copy, PartialEq, Eq)]
pub enum FieldError {
    /// Its attributes are refused.
    Attr(FieldAttrError),
    /// The variant (by source) has other than one unnamed field.
    SingleUnnamedField(usize),
    /// The variant (by source) does not have unnamed fields.
    VariantShape(usize),
}

/// Whether `f` holds the settings `st`, for a field named `name` of kind `kind`.
pub open spec fn field_holds(f: Field, source: usize, name: Seq<char>, kind: FieldKind, st: FieldAttrs) -> bool {
    &&& f.source == source
    &&& f.name@ == name
    &&& f.kind == kind
    &&& field_attrs(f, st.size_attr) == st
}

/// A field with no settings.
fn empty_field(source: usize, name: String, kind: FieldKind) -> (r: Field)
    ensures
        r.source == source,
        r.name == name,
        r.kind == kind,
        field_attrs(r, false) == no_attrs(),
{
    let r = Field {
        source,
        name,
        kind,
        owner: None,
        address: None,
        initialized: None,
        writable: None,
        executable: None,
        rent_exempt: None,
        signer: None,
        min: None,
        max: None,
        pda: None,
        pda_program_id: None,
        constraints: Vec::new(),
        data: Vec::new(),
    };
    assert(field_attrs(r, false).data =~= Seq::<(Seq<char>, usize)>::empty());
    assert(field_attrs(r, false).constraints =~= Seq::<DataAndError>::empty());
    r
}

impl Field {
    /// Reads a named field of an instruction-accounts struct: its kind from
    /// its type and its settings from its `account` attributes.
    pub fn from(field: FieldInfo) -> (r: Result<Field, FieldError>)
        requires
            field.name is Some,
            kind_readable(field.ty),
        ensures
            match r {
                Ok(f) => field_attrs_spec(field.attrs@, no_attrs(), false) matches Ok(st) && field_holds(
                    f,
                    field.source,
                    field.name.unwrap()@,
                    kind_of(field.ty),
                    st,
                ),
                Err(e) => field_attrs_spec(field.attrs@, no_attrs(), false) matches Err(a) && e == FieldError::Attr(a),
            },
    {
        let FieldInfo { source, name, ty, attrs } = field;
        let name = name.unwrap();
        let kind = discriminate_type(&ty);
        let mut new_field = empty_field(source, name, kind);
        match new_field.parse_attributes(attrs, false) {
            Ok(()) => {},
            Err(e) => return Err(FieldError::Attr(e)),
        }
        Ok(new_field)
    }

    /// Reads a variant `Variant(<account>)` of an instruction-accounts enum:
    /// its kind from the type of its single unnamed field and its settings
    /// from its `account` attributes, of which enum variants accept few.
    pub fn from_variant(variant: FieldVariantInfo) -> (r: Result<Field, FieldError>)
        requires
            variant.fields matches FieldsShape::Unnamed(n) ==> variant.unnamed_types@.len() == n,
            variant.fields matches FieldsShape::Unnamed(n) && n == 1 ==> kind_readable(variant.unnamed_types@[0]),
        ensures
            match variant.fields {
                FieldsShape::Unnamed(n) => if n != 1 {
                    r == Err::<Field, FieldError>(FieldError::SingleUnnamedField(variant.source))
                } else {
                    match r {
                        Ok(f) => field_attrs_spec(variant.attrs@, no_attrs(), true) matches Ok(st) && field_holds(
                            f,
                            variant.source,
                            variant.name@,
                            kind_of(variant.unnamed_types@[0]),
                            st,
                        ),
                        Err(e) => field_attrs_spec(variant.attrs@, no_attrs(), true) matches Err(a) && e == FieldError::Attr(a),
                    }
                },
                _ => r == Err::<Field, FieldError>(FieldError::VariantShape(variant.source)),
            },
    {
        let FieldVariantInfo { source, name, fields, unnamed_types, attrs } = variant;
        match fields {
            FieldsShape::Unnamed(n) => {
                if n != 1 {
                    return Err(FieldError::SingleUnnamedField(source));
                }
                let kind = discriminate_type(&unnamed_types[0]);
                let mut new_field = empty_field(source, name, kind);
                match new_field.parse_attributes(attrs, true) {
                    Ok(()) => {},
                    Err(e) => return Err(FieldError::Attr(e)),
                }
                Ok(new_field)
            },
            _ => Err(FieldError::VariantShape(source)),
        }
    }
}

/// Why the fields of an instruction-accounts struct are refused.
#[derive(Debug, Clone, Copy, PartialEq, Eq)]
pub enum CheckFieldsError {
    /// A field follows the `Rest` field.
    RestNotLast,
    /// A second `Rest` field.
    RestTwice,
    /// `min`, `max` or `size` on a field that is neither a `Vec` nor `Rest`.
    MinMaxNotAllowed,
}

/// The refusal, if any, of the field at `i` given the fields before it.
pub open spec fn field_check(fields: Seq<Field>, i: int) -> Option<CheckFieldsError> {
    let rest_before = exists|k: int| 0 <= k < i && #[trigger] fields[k].kind == FieldKind::Rest;
    match fields[i].kind {
        FieldKind::Rest => if rest_before {
            Some(CheckFieldsError::RestTwice)
        } else {
            None
        },
        FieldKind::Other => if rest_before {
            Some(CheckFieldsError::RestNotLast)
        } else if fields[i].min is Some || fields[i].max is Some {
            Some(CheckFieldsError::MinMaxNotAllowed)
        } else {
            None
        },
        _ => if rest_before {
            Some(CheckFieldsError::RestNotLast)
        } else {
            None
        },
    }
}

/// Checks the fields of an instruction-accounts struct: the `Rest` field, if
/// any, is the last one and appears once, and `min`, `max` and `size` are
/// used only on `Vec`, `Option` and `Rest` fields. The error names the first
/// refused field.
pub fn check_fields(fields: &[Field]) -> (r: Result<(), (usize, CheckFieldsError)>)
    ensures
        match r {
            Ok(()) => forall|i: int| 0 <= i < fields@.len() ==> #[trigger] field_check(fields@, i) is None,
            Err((i, k)) => {
                &&& i < fields@.len()
                &&& field_check(fields@, i as int) == Some(k)
                &&& forall|j: int| 0 <= j < i ==> #[trigger] field_check(fields@, j) is None
            },
        },
{
    let mut rest_field = false;
    let mut i: usize = 0;
    while i < fields.len()
        invariant
            0 <= i <= fields@.len(),
            rest_field == exists|k: int| 0 <= k < i && #[trigger] fields@[k].kind == FieldKind::Rest,
            forall|j: int| 0 <= j < i ==> #[trigger] field_check(fields@, j) is None,
        decreases fields@.len() - i,
    {
        let field = &fields[i];
        match field.kind {
            FieldKind::Other => {
                if rest_field {
                    return Err((i, CheckFieldsError::RestNotLast));
                }
                if field.min.is_some() || field.max.is_some() {
                    return Err((i, CheckFieldsError::MinMaxNotAllowed));
                }
            },
            FieldKind::Option(_) | FieldKind::Vec(_) => {
                if rest_field {
                    return Err((i, CheckFieldsError::RestNotLast));
                }
            },
            FieldKind::Rest => {
                if rest_field {
                    return Err((i, CheckFieldsError::RestTwice));
                }
                rest_field = true;
            },
        }
        assert(field_check(fields@, i as int) is None);
        i = i + 1;
    }
    Ok(())
}


/// What every reading of field attributes keeps: a program id set together
/// with a built-in pda comes with that pda, and `size` sets `min` and `max`
/// to the same value.
pub open spec fn attrs_inv(st: FieldAttrs) -> bool {
    &&& (st.pda_program_id matches Some(v) && !(v is Expr)) ==> st.pda is Some
    &&& st.size_attr ==> st.min is Some && st.min == st.max
}

proof fn lemma_meta_step_inv(m: AccountMeta, st: FieldAttrs, is_enum: bool)
    requires
        attrs_inv(st),
    ensures
        meta_step(m, st, is_enum) matches Ok(st2) ==> attrs_inv(st2),
        is_enum ==> meta_step(m, st, is_enum) is Err,
{
}

proof fn lemma_metas_scan_inv(metas: Seq<AccountMeta>, st: FieldAttrs, is_enum: bool)
    requires
        attrs_inv(st),
    ensures
        metas_scan(metas, st, is_enum) matches Ok(st2) ==> attrs_inv(st2),
        is_enum ==> (metas_scan(metas, st, is_enum) matches Ok(st2) ==> st2 == st),
    decreases metas.len(),
{
    if metas.len() > 0 {
        lemma_meta_step_inv(metas[0], st, is_enum);
        if let Ok(st2) = meta_step(metas[0], st, is_enum) {
            lemma_metas_scan_inv(metas.drop_first(), st2, is_enum);
        }
    }
}

proof fn lemma_attributes_scan_inv(attrs: Seq<AccountAttribute>, n: nat, st: FieldAttrs, is_enum: bool)
    requires
        attrs_inv(st),
        n <= attrs.len(),
    ensures
        attributes_scan(attrs, n, st, is_enum) matches Ok(st2) ==> attrs_inv(st2),
        is_enum ==> (attributes_scan(attrs, n, st, is_enum) matches Ok(st2) ==> st2 == st),
    decreases n,
{
    if n > 0 {
        let a = attrs[n - 1];
        if a.is_account {
            if let Some(metas) = a.args {
                lemma_metas_scan_inv(metas@, st, is_enum);
            }
        }
        if let Ok(st2) = attribute_step(a, st, is_enum) {
            lemma_attributes_scan_inv(attrs, (n - 1) as nat, st2, is_enum);
        }
    }
}

/// Law: an enum variant accepts no `account` argument, so the attributes of
/// an accepted variant leave it without settings.
pub proof fn law_enum_variants_take_no_settings(attrs: Seq<AccountAttribute>)
    ensures
        field_attrs_spec(attrs, no_attrs(), true) matches Ok(st) ==> st == no_attrs(),
{
    lemma_attributes_scan_inv(attrs, attrs.len(), no_attrs(), true);
}

/// Law: an accepted field that has a program id for its pda also has a pda.
pub proof fn law_program_id_comes_with_pda(attrs: Seq<AccountAttribute>, is_enum: bool)
    ensures
        field_attrs_spec(attrs, no_attrs(), is_enum) matches Ok(st) ==> (st.pda_program_id is Some
            ==> st.pda is Some),
{
    lemma_attributes_scan_inv(attrs, attrs.len(), no_attrs(), is_enum);
}

/// Law: on an accepted field, `size` gives `min` and `max` the same value.
pub proof fn law_size_sets_both_bounds(attrs: Seq<AccountAttribute>, is_enum: bool)
    ensures
        field_attrs_spec(attrs, no_attrs(), is_enum) matches Ok(st) ==> (st.size_attr ==> st.min is Some
            && st.min == st.max),
{
    lemma_attributes_scan_inv(attrs, attrs.len(), no_attrs(), is_enum);
}

/// Law: bounds (`min`, `max`, `size`) are refused only on a field of kind
/// `Other`, and only when it has one. A field of kind `Rest`, `Vec` or
/// `Option` with no `Rest` field before it is accepted, whatever its bounds;
/// after a `Rest` field every field is refused.
pub proof fn law_bounds_refused_only_on_other(fields: Seq<Field>, i: int)
    requires
        0 <= i < fields.len(),
    ensures
        field_check(fields, i) == Some(CheckFieldsError::MinMaxNotAllowed) ==> fields[i].kind == FieldKind::Other
            && (fields[i].min is Some || fields[i].max is Some),
        fields[i].kind != FieldKind::Other && (forall|k: int| 0 <= k < i ==> (#[trigger] fields[k]).kind != FieldKind::Rest)
            ==> field_check(fields, i) is None,
        fields[i].kind == FieldKind::Other && fields[i].min is None && fields[i].max is None && (forall|k: int|
            0 <= k < i ==> (#[trigger] fields[k]).kind != FieldKind::Rest) ==> field_check(fields, i) is None,
        fields[i].kind == FieldKind::Other && (fields[i].min is Some || fields[i].max is Some) && (forall|k: int|
            0 <= k < i ==> (#[trigger] fields[k]).kind != FieldKind::Rest) ==> field_check(fields, i) == Some(
            CheckFieldsError::MinMaxNotAllowed,
        ),
        (exists|k: int| 0 <= k < i && (#[trigger] fields[k]).kind == FieldKind::Rest) ==> field_check(fields, i)
            == Some(
            if fields[i].kind == FieldKind::Rest {
                CheckFieldsError::RestTwice
            } else {
                CheckFieldsError::RestNotLast
            },
        ),
{
}

} // verus!
