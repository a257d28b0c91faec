use fankor_macros::account_field::{
    discriminate_type, AccountArg, AccountAttribute, AccountMeta, DataAndError, Field, FieldAttrErrorKind,
    FieldError, FieldInfo, FieldKind, FieldValue, FieldVariantInfo, GenericArgInfo, TypeInfo,
};
use fankor_macros::instruction_accounts::{process_struct, AccountsTypeError, InstructionArgumentsError};
use fankor_macros::syntax::{FieldsShape, LitValue, MetaValue};

fn ident(name: &str) -> MetaValue {
    MetaValue::Path(vec![name.to_string()])
}

fn meta(source: usize, name: &str, value: Option<MetaValue>) -> AccountMeta {
    AccountMeta { source, name: name.to_string(), sub_name: None, value, error: None }
}

fn with_error(mut m: AccountMeta, error: usize) -> AccountMeta {
    m.error = Some(error);
    m
}

fn account(source: usize, metas: Vec<AccountMeta>) -> AccountAttribute {
    AccountAttribute { source, is_account: true, args: Some(metas) }
}

fn plain_type() -> TypeInfo {
    TypeInfo::Path { last: "Account".to_string(), first_arg: GenericArgInfo::Absent }
}

fn read(attrs: Vec<AccountAttribute>) -> Result<Field, FieldError> {
    Field::from(FieldInfo { source: 0, name: Some("f".to_string()), ty: plain_type(), attrs })
}

fn refusal(attrs: Vec<AccountAttribute>) -> (usize, FieldAttrErrorKind) {
    match read(attrs) {
        Err(FieldError::Attr(a)) => (a.source, a.kind),
        _ => panic!("expected an attribute refusal"),
    }
}

fn variant(attrs: Vec<AccountAttribute>) -> FieldVariantInfo {
    FieldVariantInfo {
        source: 0,
        name: "V".to_string(),
        fields: FieldsShape::Unnamed(1),
        unnamed_types: vec![plain_type()],
        attrs,
    }
}

#[test]
fn type_kinds() {
    assert_eq!(discriminate_type(&TypeInfo::Path { last: "Option".to_string(), first_arg: GenericArgInfo::Type(3) }), FieldKind::Option(3));
    assert_eq!(discriminate_type(&TypeInfo::Path { last: "Vec".to_string(), first_arg: GenericArgInfo::NotType }), FieldKind::Other);
    assert_eq!(discriminate_type(&TypeInfo::Path { last: "Rest".to_string(), first_arg: GenericArgInfo::Absent }), FieldKind::Rest);
    assert_eq!(discriminate_type(&TypeInfo::Other), FieldKind::Other);
    assert_eq!(AccountArg::from_name(&"rent_exempt".to_string()), AccountArg::RentExempt);
    assert_eq!(AccountArg::from_name(&"other".to_string()), AccountArg::Unknown);
}

#[test]
fn attribute_refusals() {
    assert_eq!(refusal(vec![AccountAttribute { source: 9, is_account: true, args: None }]), (9, FieldAttrErrorKind::ExpectsArguments));
    assert_eq!(refusal(vec![account(0, vec![meta(1, "owner", None)])]), (1, FieldAttrErrorKind::MustUseValue(AccountArg::Owner)));
    assert_eq!(refusal(vec![account(0, vec![meta(1, "bogus", None)])]), (1, FieldAttrErrorKind::UnknownArgument));
    assert_eq!(
        refusal(vec![account(0, vec![with_error(meta(1, "signer", None), 2)])]),
        (1, FieldAttrErrorKind::NoErrorField(AccountArg::Signer))
    );
    assert_eq!(
        refusal(vec![account(0, vec![meta(1, "size", Some(ident("n"))), meta(2, "min", Some(ident("m")))])]),
        (2, FieldAttrErrorKind::IncompatibleWithSize(AccountArg::Min))
    );
    assert_eq!(
        refusal(vec![account(0, vec![meta(1, "max", Some(ident("m"))), meta(2, "size", Some(ident("n")))])]),
        (2, FieldAttrErrorKind::SizeIncompatibleWithMinMax)
    );
    assert_eq!(
        refusal(vec![account(0, vec![meta(1, "pda_program_id", Some(ident("p"))), meta(2, "metadata_pda", Some(ident("s")))])]),
        (2, FieldAttrErrorKind::IncompatibleWithPdaProgramId(AccountArg::MetadataPda))
    );
    assert_eq!(
        refusal(vec![account(0, vec![meta(1, "associated_token_pda", Some(MetaValue::Tuple(3)))])]),
        (1, FieldAttrErrorKind::NotTupleOfTwo)
    );
    assert_eq!(refusal(vec![account(0, vec![meta(1, "data", Some(ident("v")))])]), (1, FieldAttrErrorKind::DataNeedsName));
    assert_eq!(
        refusal(vec![account(0, vec![meta(1, "pda_program_id", Some(ident("p")))])]),
        (1, FieldAttrErrorKind::ProgramIdWithoutPda)
    );
    assert_eq!(
        refusal(vec![account(0, vec![meta(1, "pda", Some(ident("a")))]), account(2, vec![meta(3, "pda", Some(ident("b")))])]),
        (1, FieldAttrErrorKind::DefinedTwice(AccountArg::Pda))
    );
}

#[test]
fn attributes_are_read_last_first() {
    let f = read(vec![
        account(0, vec![meta(1, "constraint", Some(ident("first")))]),
        account(2, vec![meta(3, "constraint", Some(ident("second")))]),
    ])
    .ok()
    .unwrap();
    assert_eq!(f.constraints.len(), 2);
    assert_eq!(f.constraints[0].data, FieldValue::Expr(3));
    assert_eq!(f.constraints[1].data, FieldValue::Expr(1));
}

#[test]
fn size_sets_both_bounds() {
    let f = read(vec![account(0, vec![meta(1, "size", Some(ident("n")))])]).ok().unwrap();
    assert_eq!(f.min, Some(FieldValue::Expr(1)));
    assert_eq!(f.max, Some(FieldValue::Expr(1)));
}

#[test]
fn program_id_comes_with_pda() {
    let f = read(vec![account(0, vec![meta(1, "associated_token_pda", Some(MetaValue::Tuple(2)))])]).ok().unwrap();
    assert_eq!(f.pda, Some(DataAndError { data: FieldValue::AssociatedTokenSeeds(1), error: None }));
    assert_eq!(f.pda_program_id, Some(FieldValue::AssociatedTokenAddress));
    let f = read(vec![account(0, vec![with_error(meta(1, "metadata_pda", Some(ident("seeds"))), 4)])]).ok().unwrap();
    assert_eq!(f.pda, Some(DataAndError { data: FieldValue::Expr(1), error: Some(4) }));
    assert_eq!(f.pda_program_id, Some(FieldValue::MetadataAddress));
    let f = read(vec![account(0, vec![meta(1, "pda", Some(ident("s"))), meta(2, "pda_program_id", Some(ident("p")))])]).ok().unwrap();
    assert_eq!(f.pda_program_id, Some(FieldValue::Expr(2)));
}

#[test]
fn data_entries_keep_their_names() {
    let mut m = meta(1, "data", Some(ident("v")));
    m.sub_name = Some("amount".to_string());
    let f = read(vec![account(0, vec![m])]).ok().unwrap();
    assert_eq!(f.data.len(), 1);
    assert_eq!(f.data[0].name, "amount");
    assert_eq!(f.data[0].value, 1);
}

#[test]
fn enum_variants_take_no_settings() {
    let f = Field::from_variant(variant(vec![])).ok().unwrap();
    assert_eq!(f.owner, None);
    assert_eq!(f.writable, None);
    assert!(f.constraints.is_empty());
    match Field::from_variant(variant(vec![account(0, vec![meta(1, "owner", Some(ident("o")))])])) {
        Err(FieldError::Attr(a)) => assert_eq!(a.kind, FieldAttrErrorKind::NotAllowedInEnum(AccountArg::Owner)),
        _ => panic!("expected a refusal"),
    }
    let f = Field::from_variant(variant(vec![AccountAttribute { source: 0, is_account: false, args: None }])).ok().unwrap();
    assert_eq!(f.signer, None);
}

#[test]
fn struct_arguments_are_read_first() {
    let attrs = vec![account(0, vec![meta(1, "args", None)])];
    let fields = vec![FieldInfo { source: 2, name: Some("f".to_string()), ty: plain_type(), attrs: vec![account(3, vec![meta(4, "bogus", None)])] }];
    assert_eq!(
        process_struct(&attrs, fields).err(),
        Some(AccountsTypeError::Arguments(InstructionArgumentsError::ArgsNeedsValue(1)))
    );
    let min = MetaValue::Lit(LitValue::Int("1".to_string()));
    let fields = vec![FieldInfo { source: 2, name: Some("f".to_string()), ty: plain_type(), attrs: vec![account(3, vec![meta(4, "min", Some(min))])] }];
    assert!(process_struct(&[], fields).is_err());
}
