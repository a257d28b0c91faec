use fankor_macros::account_field::{
    check_fields, AccountAttribute, AccountMeta, CheckFieldsError, Field, FieldAttrErrorKind,
    FieldError, FieldInfo, FieldKind, FieldValue, FieldVariantInfo, GenericArgInfo, TypeInfo,
    AccountArg,
};
use fankor_macros::attribute_args::{AttributeArgError, ConstantAttributes, ErrorAttributes, NestedMetaInfo};
use fankor_macros::borsh_plan::{
    contains_initialize_with, contains_skip, enum_de, enum_ser, struct_de, struct_ser, Binding,
    BorshFields, FieldPlan,
};
use fankor_macros::instruction_accounts::{
    process_enum, process_struct, AccountsTypeError, InstructionArguments,
    InstructionArgumentsError, Validation,
};
use fankor_macros::literals::{
    unwrap_ident_from_expr, unwrap_int_from_expr, unwrap_int_from_literal,
    unwrap_string_from_literal, LiteralError,
};
use fankor_macros::meta_args::{FnkMetaArgument, FnkMetaArgumentList, MetaArgError};
use fankor_macros::program::{Fallback, Program, ProgramError, ProgramItem};
use fankor_macros::syntax::{AttrMeta, AttributeInfo, FieldsShape, ListArgs, LitValue, MetaValue, VariantInfo};
use fankor_macros::type_options::{type_options, OptionsKind, TypeAttribute, TypeOptionsError};

fn attr(source: usize, name: &str, meta: AttrMeta) -> AttributeInfo {
    AttributeInfo { source, path: vec![name.to_string()], meta }
}

fn ident(name: &str) -> MetaValue {
    MetaValue::Path(vec![name.to_string()])
}

fn arg(source: usize, name: &str, value: Option<MetaValue>) -> FnkMetaArgument {
    FnkMetaArgument { source, name: name.to_string(), value }
}

fn fankor(source: usize, args: Vec<FnkMetaArgument>) -> TypeAttribute {
    TypeAttribute {
        info: attr(source, "fankor", AttrMeta::List(ListArgs::NotExprs, false)),
        args: Some(FnkMetaArgumentList { list: args }),
    }
}

fn other(source: usize, name: &str) -> TypeAttribute {
    TypeAttribute { info: attr(source, name, AttrMeta::Path), args: None }
}

fn plan(binding: Binding, transferred: bool) -> (String, usize, bool) {
    match binding {
        Binding::Named(n) => (n, usize::MAX, transferred),
        Binding::Index(i) => (String::new(), i, transferred),
    }
}

fn plans(ps: Vec<FieldPlan>) -> Vec<(String, usize, bool)> {
    ps.into_iter().map(|p| plan(p.binding, p.transferred)).collect()
}

fn named(n: &str) -> (String, usize, bool) {
    (n.to_string(), usize::MAX, true)
}

fn skipped(n: &str) -> (String, usize, bool) {
    (n.to_string(), usize::MAX, false)
}

fn skip_attr(source: usize) -> AttributeInfo {
    attr(source, "borsh_skip", AttrMeta::Path)
}

#[test]
fn skip_and_init_attributes() {
    assert!(contains_skip(&[attr(0, "doc", AttrMeta::Other), skip_attr(1)]));
    assert!(!contains_skip(&[attr(0, "borsh_skip", AttrMeta::List(ListArgs::Empty, false))]));
    let attrs = [
        attr(0, "borsh_init", AttrMeta::Path),
        attr(1, "borsh_init", AttrMeta::List(ListArgs::NotExprs, true)),
        attr(2, "borsh_init", AttrMeta::List(ListArgs::NotExprs, true)),
    ];
    assert_eq!(contains_initialize_with(&attrs), Some(1));
    assert_eq!(contains_initialize_with(&[]), None);
}

#[test]
fn type_options_by_kind() {
    let o = type_options(vec![other(0, "derive"), fankor(1, vec![arg(2, "account", Some(ident("Accounts")))])], OptionsKind::Struct).ok().unwrap();
    assert_eq!(o.account, Some("Accounts".to_string()));
    assert!(!o.accounts);
    let o = type_options(vec![other(0, "derive")], OptionsKind::Enum).ok().unwrap();
    assert_eq!(o.account, None);
    assert!(!o.accounts);
    let o = type_options(vec![fankor(1, vec![arg(2, "accounts", None)])], OptionsKind::Enum).ok().unwrap();
    assert!(o.accounts);
    assert_eq!(
        type_options(vec![fankor(1, vec![arg(2, "accounts", None)])], OptionsKind::Struct).err(),
        Some(TypeOptionsError::AccountsOnStruct)
    );
    assert_eq!(
        type_options(vec![fankor(1, vec![arg(2, "accounts", None)])], OptionsKind::StructDe).err(),
        Some(TypeOptionsError::Arg(MetaArgError::Unknown(2)))
    );
    assert_eq!(
        type_options(vec![fankor(1, vec![arg(2, "account", Some(ident("A"))), arg(3, "accounts", None)])], OptionsKind::Enum).err(),
        Some(TypeOptionsError::AccountAndAccounts(1))
    );
    assert_eq!(
        type_options(vec![fankor(1, vec![arg(2, "account", None)])], OptionsKind::ZeroCopyEnum).err(),
        Some(TypeOptionsError::AccountOnEnum)
    );
    assert_eq!(
        type_options(vec![fankor(1, vec![arg(2, "account", Some(ident("A")))])], OptionsKind::TsGenEnum).err(),
        Some(TypeOptionsError::AccountOnEnum)
    );
    let malformed = TypeAttribute { info: attr(7, "fankor", AttrMeta::Path), args: None };
    assert_eq!(type_options(vec![malformed], OptionsKind::Enum).err(), Some(TypeOptionsError::Malformed(7)));
    let second = vec![fankor(1, vec![]), fankor(2, vec![arg(3, "bogus", None)])];
    assert!(type_options(second, OptionsKind::Enum).is_ok());
}

#[test]
fn struct_serde_read_options_alike() {
    let attrs = || vec![fankor(1, vec![arg(2, "account", Some(ident("Accs")))])];
    let fields = BorshFields::Unit;
    let ser = struct_ser(attrs(), &fields).ok().unwrap();
    let de = struct_de(attrs(), &fields).ok().unwrap();
    assert_eq!(ser.account, de.account);
    assert_eq!(ser.account, Some("Accs".to_string()));
    let bad = || vec![fankor(1, vec![arg(2, "accounts", None)])];
    assert!(struct_ser(bad(), &fields).is_err());
    assert!(struct_de(bad(), &fields).is_err());
}

#[test]
fn struct_plans_skip_named_fields_only() {
    let named_fields = BorshFields::Named(vec![
        ("a".to_string(), vec![]),
        ("b".to_string(), vec![skip_attr(0)]),
    ]);
    let ser = struct_ser(vec![], &named_fields).ok().unwrap();
    assert_eq!(plans(ser.fields), vec![named("a"), skipped("b")]);
    let de = struct_de(vec![other(0, "x")], &named_fields).ok().unwrap();
    assert_eq!(plans(de.fields), vec![named("a"), skipped("b")]);
    assert_eq!(de.init, None);
    let unnamed = BorshFields::Unnamed(vec![vec![], vec![skip_attr(1)]]);
    let ser = struct_ser(vec![], &unnamed).ok().unwrap();
    assert_eq!(plans(ser.fields), vec![(String::new(), 0, true), (String::new(), 1, true)]);
}

#[test]
fn enum_plans() {
    let variants = vec![
        BorshFields::Unit,
        BorshFields::Named(vec![("x".to_string(), vec![skip_attr(0)]), ("y".to_string(), vec![])]),
        BorshFields::Unnamed(vec![vec![skip_attr(1)], vec![]]),
    ];
    let ser = enum_ser(vec![], &variants).ok().unwrap();
    assert!(ser.write_variant_index);
    assert_eq!(ser.account, None);
    assert_eq!(ser.variants.len(), 3);
    let mut vs = ser.variants;
    let third = plans(vs.pop().unwrap());
    let second = plans(vs.pop().unwrap());
    let first = plans(vs.pop().unwrap());
    assert!(first.is_empty());
    assert_eq!(second, vec![skipped("x"), named("y")]);
    assert_eq!(third, vec![(String::new(), 0, false), (String::new(), 1, true)]);
    let init = TypeAttribute { info: attr(9, "borsh_init", AttrMeta::List(ListArgs::NotExprs, true)), args: None };
    let de = enum_de(vec![init, fankor(1, vec![arg(2, "accounts", None)])], &variants).ok().unwrap();
    assert!(de.peek_variant_index);
    assert_eq!(de.init, Some(9));
    let ser = enum_ser(vec![fankor(1, vec![arg(2, "accounts", None)])], &variants).ok().unwrap();
    assert!(!ser.write_variant_index);
}

fn variant(source: usize, name: &str, attrs: Vec<AttributeInfo>) -> VariantInfo {
    VariantInfo { source, name: name.to_string(), native_discriminant: false, attrs, fields: FieldsShape::Unit }
}

#[test]
fn program_reads_methods() {
    let args = FnkMetaArgumentList { list: vec![arg(0, "fallback", None), arg(1, "testable", None)] };
    let item = ProgramItem {
        name: "MyProgram".to_string(),
        has_generics: false,
        variants: vec![
            variant(2, "InitVault", vec![attr(3, "return_type", AttrMeta::NameValue(MetaValue::Other, true)), attr(4, "doc", AttrMeta::Other)]),
            variant(5, "Close", vec![attr(6, "boxed", AttrMeta::Path)]),
        ],
    };
    let p = Program::from(args, item).ok().unwrap();
    assert_eq!(p.name, "MyProgram");
    assert_eq!(p.snake_name, "my_program");
    assert_eq!(p.fallback_method_call, Some(Fallback::Default));
    assert!(p.testable);
    assert!(p.attrs.is_empty());
    assert_eq!(p.methods.len(), 2);
    assert_eq!(p.methods[0].snake_name, "init_vault");
    assert_eq!(p.methods[0].return_type, Some(3));
    assert!(!p.methods[0].boxed);
    assert_eq!(p.methods[0].attrs.len(), 1);
    assert_eq!(p.methods[1].name, "Close");
    assert!(p.methods[1].boxed);
    assert_eq!(p.methods[1].return_type, None);
}

#[test]
fn program_refusals() {
    let empty = || FnkMetaArgumentList { list: vec![] };
    let item = |variants: Vec<VariantInfo>, has_generics: bool| ProgramItem { name: "P".to_string(), has_generics, variants };
    assert_eq!(Program::from(empty(), item(vec![], true)).err(), Some(ProgramError::Generics));
    assert_eq!(
        Program::from(empty(), item(vec![variant(0, "A", vec![attr(1, "return_type", AttrMeta::NameValue(MetaValue::Other, false))])], false)).err(),
        Some(ProgramError::ReturnTypePattern(1))
    );
    assert_eq!(
        Program::from(empty(), item(vec![variant(0, "A", vec![attr(1, "boxed", AttrMeta::Other)])], false)).err(),
        Some(ProgramError::BoxedPattern(1))
    );
    let args = FnkMetaArgumentList { list: vec![arg(0, "fallback", Some(ident("handler"))), arg(1, "x", None)] };
    assert_eq!(Program::from(args, item(vec![], false)).err(), Some(ProgramError::Arg(MetaArgError::Unknown(1))));
    let args = FnkMetaArgumentList { list: vec![arg(0, "fallback", Some(ident("handler")))] };
    assert_eq!(Program::from(args, item(vec![], false)).ok().unwrap().fallback_method_call, Some(Fallback::Call(0)));
}

fn meta(source: usize, name: &str, value: Option<MetaValue>) -> AccountMeta {
    AccountMeta { source, name: name.to_string(), sub_name: None, value, error: None }
}

fn account(source: usize, metas: Vec<AccountMeta>) -> AccountAttribute {
    AccountAttribute { source, is_account: true, args: Some(metas) }
}

#[test]
fn instruction_accounts_arguments() {
    let attrs = vec![
        AccountAttribute { source: 0, is_account: false, args: None },
        account(1, vec![meta(2, "args", Some(ident("DepositArgs"))), meta(3, "initial_validation", None)]),
        account(4, vec![meta(5, "final_validation", Some(ident("check"))), meta(6, "initial_validation", Some(ident("v")))]),
    ];
    let a = InstructionArguments::from(&attrs).ok().unwrap();
    assert_eq!(a.args, Some("DepositArgs".to_string()));
    assert_eq!(a.initial_validation, Some(Validation::Explicit(6)));
    assert_eq!(a.final_validation, Some(Validation::Explicit(5)));
    let refuse = |metas: Vec<AccountMeta>| InstructionArguments::from(&[account(0, metas)]).err();
    assert_eq!(refuse(vec![meta(1, "args", Some(ident("A"))), meta(2, "args", Some(ident("B")))]), Some(InstructionArgumentsError::ArgsTwice(2)));
    assert_eq!(refuse(vec![meta(1, "args", Some(MetaValue::Path(vec!["a".to_string(), "b".to_string()])))]), Some(InstructionArgumentsError::ArgsNotIdent(1)));
    assert_eq!(refuse(vec![meta(1, "args", None)]), Some(InstructionArgumentsError::ArgsNeedsValue(1)));
    assert_eq!(refuse(vec![meta(1, "args", Some(MetaValue::Other))]), Some(InstructionArgumentsError::Unknown(1)));
    assert_eq!(refuse(vec![meta(1, "writable", None)]), Some(InstructionArgumentsError::Unknown(1)));
    let no_args = AccountAttribute { source: 8, is_account: true, args: None };
    assert_eq!(InstructionArguments::from(&[no_args]).err(), Some(InstructionArgumentsError::ExpectsArguments(8)));
}

fn ty(last: &str, first_arg: GenericArgInfo) -> TypeInfo {
    TypeInfo::Path { last: last.to_string(), first_arg }
}

fn field(source: usize, name: &str, t: TypeInfo, attrs: Vec<AccountAttribute>) -> FieldInfo {
    FieldInfo { source, name: Some(name.to_string()), ty: t, attrs }
}

#[test]
fn field_reads_account_settings() {
    let f = Field::from(field(0, "vault", ty("Account", GenericArgInfo::Absent), vec![account(1, vec![meta(2, "writable", None), meta(3, "owner", Some(ident("program")))])])).ok().unwrap();
    assert_eq!(f.name, "vault");
    assert_eq!(f.kind, FieldKind::Other);
    assert_eq!(f.writable, Some(FieldValue::True));
    assert_eq!(f.owner, Some(FieldValue::Expr(3)));
    let e = Field::from(field(0, "v", ty("Account", GenericArgInfo::Absent), vec![account(1, vec![meta(2, "signer", None), meta(3, "signer", None)])])).err().unwrap();
    match e {
        FieldError::Attr(a) => {
            assert_eq!(a.source, 3);
            assert_eq!(a.kind, FieldAttrErrorKind::DefinedTwice(AccountArg::Signer));
        }
        _ => panic!("expected an attribute error"),
    }
}

#[test]
fn accounts_struct_checks_rest_last() {
    let fields = vec![
        field(0, "rest", ty("Rest", GenericArgInfo::Absent), vec![]),
        field(1, "after", ty("Account", GenericArgInfo::Absent), vec![]),
    ];
    assert_eq!(process_struct(&[], fields).err(), Some(AccountsTypeError::Check(1, CheckFieldsError::RestNotLast)));
    let fields = vec![
        field(0, "list", ty("Vec", GenericArgInfo::Type(9)), vec![account(1, vec![meta(2, "min", Some(MetaValue::Lit(LitValue::Int("1".to_string()))))])]),
        field(3, "rest", ty("Rest", GenericArgInfo::Absent), vec![]),
    ];
    let t = process_struct(&[account(4, vec![meta(5, "args", Some(ident("Args")))])], fields).ok().unwrap();
    assert_eq!(t.arguments.args, Some("Args".to_string()));
    assert_eq!(t.fields.len(), 2);
    assert_eq!(t.fields[0].kind, FieldKind::Vec(9));
    assert_eq!(t.fields[0].min, Some(FieldValue::Expr(2)));
    assert!(check_fields(&t.fields).is_ok());
    let fields = vec![field(0, "one", ty("Account", GenericArgInfo::Absent), vec![account(1, vec![meta(2, "max", Some(ident("m")))])])];
    assert_eq!(process_struct(&[], fields).err(), Some(AccountsTypeError::Check(0, CheckFieldsError::MinMaxNotAllowed)));
}

fn ix_variant(source: usize, name: &str, t: TypeInfo) -> FieldVariantInfo {
    FieldVariantInfo { source, name: name.to_string(), fields: FieldsShape::Unnamed(1), unnamed_types: vec![t], attrs: vec![] }
}

#[test]
fn accounts_enum_variants() {
    let t = process_enum(&[], vec![ix_variant(0, "A", ty("Deposit", GenericArgInfo::Absent)), ix_variant(1, "B", ty("Option", GenericArgInfo::Type(4)))]).ok().unwrap();
    assert_eq!(t.fields.len(), 2);
    assert_eq!(t.fields[1].kind, FieldKind::Option(4));
    assert_eq!(
        process_enum(&[], vec![ix_variant(0, "A", ty("Vec", GenericArgInfo::Type(4)))]).err(),
        Some(AccountsTypeError::VecInEnum(0))
    );
    let mut two = ix_variant(7, "C", ty("Deposit", GenericArgInfo::Absent));
    two.fields = FieldsShape::Unnamed(2);
    two.unnamed_types.push(TypeInfo::Other);
    assert_eq!(process_enum(&[], vec![two]).err(), Some(AccountsTypeError::Field(FieldError::SingleUnnamedField(7))));
    let mut unit = ix_variant(8, "D", TypeInfo::Other);
    unit.fields = FieldsShape::Unit;
    unit.unnamed_types.clear();
    assert_eq!(process_enum(&[], vec![unit]).err(), Some(AccountsTypeError::Field(FieldError::VariantShape(8))));
}

#[test]
fn literal_unwrapping() {
    assert_eq!(unwrap_int_from_literal(LitValue::Int("5".to_string())), Ok("5".to_string()));
    assert_eq!(unwrap_int_from_literal(LitValue::Other), Err(LiteralError::ExpectedInteger));
    assert_eq!(unwrap_int_from_expr(MetaValue::Lit(LitValue::Int("7".to_string()))), Ok("7".to_string()));
    assert_eq!(unwrap_int_from_expr(ident("x")), Err(LiteralError::ExpectedInteger));
    assert_eq!(unwrap_ident_from_expr(ident("x")), Ok("x".to_string()));
    assert_eq!(unwrap_ident_from_expr(MetaValue::Tuple(2)), Err(LiteralError::ExpectedIdentifier));
    assert_eq!(unwrap_string_from_literal(LitValue::Str("s".to_string())), Ok("s".to_string()));
    assert_eq!(unwrap_string_from_literal(LitValue::Int("1".to_string())), Err(LiteralError::ExpectedString));
}

#[test]
fn older_attribute_arguments() {
    let args = vec![
        NestedMetaInfo::NameValue { source: 0, path: vec!["offset".to_string()], lit: LitValue::Int("10".to_string()) },
        NestedMetaInfo::Path { source: 1, path: vec!["skip_test".to_string()] },
    ];
    let a = ErrorAttributes::from(args).ok().unwrap();
    assert_eq!(a.offset, Some(0));
    assert!(a.skip_test);
    assert_eq!(ErrorAttributes::from(vec![NestedMetaInfo::Lit { source: 3 }]).err(), Some(AttributeArgError::UnknownArgument(3)));
    assert_eq!(
        ErrorAttributes::from(vec![NestedMetaInfo::NameValue { source: 5, path: vec!["offset".to_string()], lit: LitValue::Str("x".to_string()) }]).err(),
        Some(AttributeArgError::ExpectedInteger(5))
    );
    assert_eq!(
        ErrorAttributes::from(vec![NestedMetaInfo::NameValue { source: 6, path: vec!["other".to_string()], lit: LitValue::Other }]).err(),
        Some(AttributeArgError::UnknownAttribute(6))
    );
    assert_eq!(ErrorAttributes::from(vec![NestedMetaInfo::List { source: 7 }]).err(), Some(AttributeArgError::UnknownArgument(7)));
    let c = ConstantAttributes::from(vec![NestedMetaInfo::NameValue { source: 0, path: vec!["alias".to_string()], lit: LitValue::Str("idl".to_string()) }]).ok().unwrap();
    assert_eq!(c.alias, Some("idl".to_string()));
    assert_eq!(
        ConstantAttributes::from(vec![NestedMetaInfo::NameValue { source: 4, path: vec!["alias".to_string()], lit: LitValue::Other }]).err(),
        Some(AttributeArgError::ExpectedString(4))
    );
}
