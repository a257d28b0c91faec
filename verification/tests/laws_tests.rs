use fankor_macros::account_field::{
    AccountArg, AccountAttribute, AccountMeta, Field, FieldAttrErrorKind, FieldError, FieldInfo,
    FieldKind, FieldValue, FieldVariantInfo, GenericArgInfo, TypeInfo,
};
use fankor_macros::borsh_plan::{enum_de, enum_ser, struct_de, struct_ser, Binding, BorshFields, FieldPlan};
use fankor_macros::config::{ConfigError, FankorAccountsConfig, FankorInstructionsConfig};
use fankor_macros::discriminants::{CodeErrorKind, DiscriminantError};
use fankor_macros::instruction::{instruction_enum_plan, InstructionError};
use fankor_macros::meta_args::{FnkMetaArgument, FnkMetaArgumentList, MetaArgError};
use fankor_macros::syntax::{AttrMeta, AttributeInfo, FieldsShape, ListArgs, LitValue, MetaValue, VariantInfo};
use fankor_macros::type_options::{TypeAttribute, TypeOptionsError};
use fankor_macros::ts_gen::{ts_enum_plan, ts_struct_plan, TsGenError, TsVariantShape};
use fankor_macros::zero_copy::{zero_copy_enum_plan, zero_copy_struct_plan, ZeroCopyError};

fn ident(name: &str) -> MetaValue {
    MetaValue::Path(vec![name.to_string()])
}

fn meta(source: usize, name: &str, value: Option<MetaValue>) -> AccountMeta {
    AccountMeta { source, name: name.to_string(), sub_name: None, value, error: None }
}

fn with_error(mut m: AccountMeta, error: usize) -> AccountMeta {
    m.error = Some(error);
    m
}

fn account(source: usize, metas: Vec<AccountMeta>) -> AccountAttribute {
    AccountAttribute { source, is_account: true, args: Some(metas) }
}

fn doc(source: usize) -> AccountAttribute {
    AccountAttribute { source, is_account: false, args: None }
}

fn plain_type() -> TypeInfo {
    TypeInfo::Path { last: "Account".to_string(), first_arg: GenericArgInfo::Absent }
}

fn read(attrs: Vec<AccountAttribute>) -> Result<Field, FieldError> {
    Field::from(FieldInfo { source: 0, name: Some("f".to_string()), ty: plain_type(), attrs })
}

fn refusal(attrs: Vec<AccountAttribute>) -> (usize, FieldAttrErrorKind) {
    match read(attrs) {
        Err(FieldError::Attr(a)) => (a.source, a.kind),
        _ => panic!("expected an attribute refusal"),
    }
}

fn read_variant(attrs: Vec<AccountAttribute>) -> Result<Field, FieldError> {
    Field::from_variant(FieldVariantInfo {
        source: 0,
        name: "V".to_string(),
        fields: FieldsShape::Unnamed(1),
        unnamed_types: vec![plain_type()],
        attrs,
    })
}

#[test]
fn conflicting_arguments_in_two_attributes() {
    // The last attribute is read first, so the refusal falls on the earlier one.
    assert_eq!(
        refusal(vec![account(0, vec![meta(1, "owner", Some(ident("a")))]), account(2, vec![meta(3, "owner", Some(ident("b")))])]),
        (1, FieldAttrErrorKind::DefinedTwice(AccountArg::Owner))
    );
    assert_eq!(
        refusal(vec![account(0, vec![meta(1, "min", Some(ident("a")))]), account(2, vec![meta(3, "size", Some(ident("b")))])]),
        (1, FieldAttrErrorKind::IncompatibleWithSize(AccountArg::Min))
    );
    assert_eq!(
        refusal(vec![account(0, vec![meta(1, "size", Some(ident("a")))]), account(2, vec![meta(3, "max", Some(ident("b")))])]),
        (1, FieldAttrErrorKind::SizeIncompatibleWithMinMax)
    );
    assert_eq!(
        refusal(vec![account(0, vec![meta(1, "writable", None), meta(2, "writable", None)])]),
        (2, FieldAttrErrorKind::DefinedTwice(AccountArg::Writable))
    );
    assert_eq!(
        refusal(vec![account(0, vec![meta(1, "size", Some(ident("a"))), meta(2, "size", Some(ident("b")))])]),
        (2, FieldAttrErrorKind::DefinedTwice(AccountArg::Size))
    );
}

#[test]
fn error_expressions_only_on_pda_and_constraint() {
    assert_eq!(
        refusal(vec![account(0, vec![with_error(meta(1, "owner", Some(ident("a"))), 9)])]),
        (1, FieldAttrErrorKind::NoErrorField(AccountArg::Owner))
    );
    let f = read(vec![account(0, vec![
        with_error(meta(1, "pda", Some(ident("seeds"))), 7),
        with_error(meta(2, "constraint", Some(ident("c"))), 8),
    ])])
    .unwrap();
    let pda = f.pda.unwrap();
    assert_eq!(pda.data, FieldValue::Expr(1));
    assert_eq!(pda.error, Some(7));
    assert_eq!(f.constraints.len(), 1);
    assert_eq!(f.constraints[0].error, Some(8));
}

#[test]
fn enum_variants_take_only_empty_account_lists() {
    let f = read_variant(vec![account(0, vec![]), doc(1)]).unwrap();
    assert_eq!(f.kind, FieldKind::Other);
    assert!(f.owner.is_none() && f.min.is_none() && f.pda.is_none());
    assert_eq!(f.constraints.len(), 0);
    match read_variant(vec![account(0, vec![meta(1, "writable", None)])]) {
        Err(FieldError::Attr(a)) => assert_eq!((a.source, a.kind), (1, FieldAttrErrorKind::NotAllowedInEnum(AccountArg::Writable))),
        _ => panic!("expected a refusal"),
    }
}

#[test]
fn other_attributes_change_nothing() {
    let plain = read(vec![account(0, vec![meta(1, "owner", Some(ident("a")))])]).unwrap();
    let with_docs = read(vec![doc(5), account(0, vec![meta(1, "owner", Some(ident("a")))]), doc(6)]).unwrap();
    assert_eq!(plain.owner, with_docs.owner);
    assert_eq!(plain.owner, Some(FieldValue::Expr(1)));
    assert_eq!(
        refusal(vec![doc(5), account(0, vec![meta(1, "bogus", None)])]),
        refusal(vec![account(0, vec![meta(1, "bogus", None)])])
    );
}

#[test]
fn discriminator_sizes_and_lookups() {
    let accounts = FankorAccountsConfig { discriminator_size: 33, discriminators: vec![] };
    assert_eq!(accounts.check(), Err(ConfigError::DiscriminatorSizeTooLarge));
    let instructions = FankorInstructionsConfig { discriminator_size: 0, discriminators: vec![] };
    assert_eq!(instructions.check(), Err(ConfigError::DiscriminatorSizeTooSmall));
    let edge = FankorAccountsConfig { discriminator_size: 32, discriminators: vec![] };
    assert_eq!(edge.check(), Ok(()));
    let table = FankorAccountsConfig {
        discriminator_size: 2,
        discriminators: vec![("A".to_string(), vec![1, 2]), ("B".to_string(), vec![3])],
    };
    assert_eq!(table.find_discriminator("A"), Ok(vec![1, 2]));
    assert_eq!(table.find_discriminator("B"), Err(ConfigError::WrongDiscriminatorSize));
    assert_eq!(table.find_discriminator("C"), Err(ConfigError::MissingDiscriminator));
}

fn attr(source: usize, name: &str, meta: AttrMeta) -> AttributeInfo {
    AttributeInfo { source, path: vec![name.to_string()], meta }
}

fn arg(source: usize, name: &str, value: Option<MetaValue>) -> FnkMetaArgument {
    FnkMetaArgument { source, name: name.to_string(), value }
}

fn fankor(source: usize, args: Vec<FnkMetaArgument>) -> TypeAttribute {
    TypeAttribute {
        info: attr(source, "fankor", AttrMeta::List(ListArgs::NotExprs, false)),
        args: Some(FnkMetaArgumentList { list: args }),
    }
}

fn shape(ps: &[FieldPlan]) -> Vec<(String, usize, bool)> {
    ps.iter()
        .map(|p| match &p.binding {
            Binding::Named(n) => (n.clone(), usize::MAX, p.transferred),
            Binding::Index(i) => (String::new(), *i, p.transferred),
        })
        .collect()
}

fn skip_attr(source: usize) -> AttributeInfo {
    attr(source, "borsh_skip", AttrMeta::Path)
}

#[test]
fn serializer_and_deserializer_agree() {
    let fields = || BorshFields::Named(vec![("a".to_string(), vec![]), ("b".to_string(), vec![skip_attr(1)])]);
    let ser = struct_ser(vec![fankor(0, vec![arg(1, "account", Some(ident("Acc")))])], &fields()).unwrap();
    let de = struct_de(vec![fankor(0, vec![arg(1, "account", Some(ident("Acc")))])], &fields()).unwrap();
    assert_eq!(ser.account, de.account);
    assert_eq!(shape(&ser.fields), shape(&de.fields));
    assert_eq!(shape(&ser.fields)[1], ("b".to_string(), usize::MAX, false));

    let variants = || vec![BorshFields::Unnamed(vec![vec![], vec![skip_attr(2)]]), BorshFields::Unit];
    let eser = enum_ser(vec![fankor(0, vec![arg(1, "accounts", None)])], &variants()).unwrap();
    let ede = enum_de(vec![fankor(0, vec![arg(1, "accounts", None)])], &variants()).unwrap();
    assert_eq!(eser.write_variant_index, !ede.peek_variant_index);
    assert!(!eser.write_variant_index);
    assert_eq!(eser.variants.len(), ede.variants.len());
    assert_eq!(shape(&eser.variants[0]), shape(&ede.variants[0]));
    assert_eq!(shape(&eser.variants[0])[1], (String::new(), 1, false));

    let bad = || vec![fankor(0, vec![arg(1, "bogus", None)])];
    assert_eq!(enum_ser(bad(), &variants()).is_err(), enum_de(bad(), &variants()).is_err());
    assert!(enum_ser(bad(), &variants()).is_err());
}

#[test]
fn zero_copy_struct_offsets() {
    let names = vec!["first_field".to_string(), "b".to_string()];
    let plan = zero_copy_struct_plan(vec![fankor(0, vec![arg(1, "account", Some(ident("Acc")))])], &names).unwrap();
    assert_eq!(plan.extra_offset, 1);
    assert_eq!(plan.fields[0], ("first_field".to_string(), "FirstField".to_string()));
    assert_eq!(plan.fields[1], ("b".to_string(), "B".to_string()));
    let bare = zero_copy_struct_plan(vec![], &names).unwrap();
    assert_eq!(bare.extra_offset, 0);
    assert!(matches!(
        zero_copy_struct_plan(vec![fankor(0, vec![arg(1, "accounts", None)])], &names),
        Err(TypeOptionsError::AccountsOnStruct)
    ));
}

fn discriminant(source: usize, digits: &str) -> AttributeInfo {
    attr(source, "discriminant", AttrMeta::NameValue(MetaValue::Lit(LitValue::Int(digits.to_string())), false))
}

fn variant(source: usize, name: &str, attrs: Vec<AttributeInfo>, fields: FieldsShape) -> VariantInfo {
    VariantInfo { source, name: name.to_string(), native_discriminant: false, attrs, fields }
}

#[test]
fn zero_copy_enum_flags() {
    let unit = vec![
        variant(0, "A", vec![], FieldsShape::Unit),
        variant(1, "B", vec![discriminant(2, "5")], FieldsShape::Unit),
    ];
    let plan = zero_copy_enum_plan(vec![], &unit).unwrap();
    assert!(plan.all_unit);
    assert_eq!(plan.size_base, 1);
    assert_eq!(plan.new_flags, vec![0, 1]);
    assert_eq!(plan.size_flags, vec![0, 5]);
    assert_eq!(plan.min_bases, vec![None, None]);

    let mixed = vec![
        variant(0, "A", vec![], FieldsShape::Named(vec!["x".to_string()])),
        variant(1, "B", vec![discriminant(2, "5")], FieldsShape::Unnamed(1)),
    ];
    let plan = zero_copy_enum_plan(vec![fankor(0, vec![arg(1, "accounts", None)])], &mixed).unwrap();
    assert!(!plan.all_unit);
    assert_eq!(plan.initial_size, 0);
    assert_eq!(plan.size_base, 0);
    assert_eq!(plan.new_flags, vec![0, 5]);
    assert_eq!(plan.min_bases, vec![Some(1), Some(0)]);

    assert!(matches!(
        zero_copy_enum_plan(vec![fankor(0, vec![arg(1, "account", None)])], &mixed),
        Err(ZeroCopyError::Options(TypeOptionsError::AccountOnEnum))
    ));
    let unsorted = vec![
        variant(0, "A", vec![discriminant(1, "3")], FieldsShape::Unit),
        variant(2, "B", vec![discriminant(3, "2")], FieldsShape::Unit),
    ];
    match zero_copy_enum_plan(vec![], &unsorted) {
        Err(ZeroCopyError::Codes(e)) => assert_eq!((e.index, e.kind), (1, CodeErrorKind::Unsorted)),
        _ => panic!("expected a numbering refusal"),
    }
}

#[test]
fn instruction_enum_variants() {
    let vs = vec![
        variant(0, "Init", vec![], FieldsShape::Unnamed(1)),
        variant(1, "Close", vec![discriminant(2, "4")], FieldsShape::Unit),
    ];
    let args = FnkMetaArgumentList { list: vec![arg(0, "phantom", None)] };
    let plan = instruction_enum_plan(args, &vs).unwrap();
    assert!(plan.arguments.phantom);
    assert_eq!(plan.variants.len(), 2);
    assert_eq!(plan.variants[0].name, "Init");
    assert!(plan.variants[0].holds_instruction);
    assert_eq!(plan.variants[0].code, 0);
    assert!(!plan.variants[1].holds_instruction);
    assert_eq!(plan.variants[1].code, 4);

    let bad = vec![
        variant(0, "A", vec![], FieldsShape::Unit),
        variant(7, "B", vec![], FieldsShape::Unnamed(2)),
        variant(8, "C", vec![], FieldsShape::Named(vec![])),
    ];
    assert!(matches!(
        instruction_enum_plan(FnkMetaArgumentList { list: vec![] }, &bad),
        Err(InstructionError::VariantShape(7))
    ));
    assert!(matches!(
        instruction_enum_plan(FnkMetaArgumentList { list: vec![arg(0, "bogus", None)] }, &vs),
        Err(InstructionError::Arguments(MetaArgError::Unknown(_)))
    ));
    let native = vec![VariantInfo {
        source: 0,
        name: "A".to_string(),
        native_discriminant: true,
        attrs: vec![],
        fields: FieldsShape::Unit,
    }];
    match instruction_enum_plan(FnkMetaArgumentList { list: vec![] }, &native) {
        Err(InstructionError::Codes(e)) => {
            assert_eq!((e.index, e.kind), (0, CodeErrorKind::Discriminant(DiscriminantError::NativeDiscriminant)))
        },
        _ => panic!("expected a numbering refusal"),
    }
}

#[test]
fn ts_gen_struct_and_enum_plans() {
    let names = vec!["first_field".to_string(), "b".to_string()];
    let plan = ts_struct_plan(vec![fankor(0, vec![arg(1, "account", Some(ident("Acc")))])], &names).unwrap();
    assert_eq!(plan.account, Some("Acc".to_string()));
    assert_eq!(plan.fields, vec!["firstField".to_string(), "b".to_string()]);
    assert!(matches!(
        ts_struct_plan(vec![fankor(0, vec![arg(1, "accounts", None)])], &names),
        Err(TypeOptionsError::AccountsOnStruct)
    ));

    let vs = vec![
        variant(0, "A", vec![], FieldsShape::Named(vec!["some_value".to_string()])),
        variant(1, "B", vec![], FieldsShape::Unnamed(1)),
        variant(2, "C", vec![], FieldsShape::Unit),
    ];
    let plan = ts_enum_plan(&"Kind".to_string(), vec![fankor(0, vec![arg(1, "accounts", None)])], &vs).unwrap();
    assert!(plan.accounts);
    assert_eq!(plan.variants[0].interface_name, "Kind_A");
    assert_eq!(plan.variants[2].interface_name, "Kind_C");
    match &plan.variants[0].shape {
        TsVariantShape::Named(ns) => assert_eq!(ns, &vec!["someValue".to_string()]),
        _ => panic!("expected named fields"),
    }
    assert!(matches!(plan.variants[1].shape, TsVariantShape::Single));
    assert!(matches!(plan.variants[2].shape, TsVariantShape::Unit));

    let bad = vec![variant(0, "A", vec![], FieldsShape::Unit), variant(4, "B", vec![], FieldsShape::Unnamed(2))];
    assert!(matches!(ts_enum_plan(&"Kind".to_string(), vec![], &bad), Err(TsGenError::UnnamedNotSingle(4))));
    assert!(matches!(
        ts_enum_plan(&"Kind".to_string(), vec![fankor(0, vec![arg(1, "account", Some(ident("X")))])], &vs),
        Err(TsGenError::Options(TypeOptionsError::AccountOnEnum))
    ));
}
