use fankor_macros::accounts::{accounts_enum, AccountVariant, AccountVariantError, AccountsEnumError};
use fankor_macros::discriminants::{
    enum_codes_overflow, enum_discriminant_codes, get_discriminant, is_deprecated, CodeErrorKind,
    DiscriminantError,
};
use fankor_macros::error_code::{
    collect_error_variants, error_numbers, error_numbers_overflow, error_variant_unreadable,
    error_variants_reach_unreadable,
    ErrorEnumErrorKind, ErrorVariant, ErrorVariantError, NumberingError,
};
use fankor_macros::numbers::NumberError;
use fankor_macros::syntax::{AttrMeta, AttributeInfo, FieldsShape, ListArgs, LitValue, MetaValue, VariantInfo};

fn attr(source: usize, name: &str, meta: AttrMeta) -> AttributeInfo {
    AttributeInfo { source, path: vec![name.to_string()], meta }
}

fn discriminant(source: usize, digits: &str) -> AttributeInfo {
    attr(
        source,
        "discriminant",
        AttrMeta::NameValue(MetaValue::Lit(LitValue::Int(digits.to_string())), false),
    )
}

fn deprecated(source: usize) -> AttributeInfo {
    attr(source, "deprecated", AttrMeta::Path)
}

fn variant(source: usize, name: &str, attrs: Vec<AttributeInfo>) -> VariantInfo {
    VariantInfo {
        source,
        name: name.to_string(),
        native_discriminant: false,
        attrs,
        fields: FieldsShape::Unit,
    }
}

#[test]
fn discriminant_attribute_is_read() {
    let v = variant(0, "A", vec![discriminant(1, "7")]);
    assert_eq!(get_discriminant(&v, 255), Ok(Some(7)));
    let v = variant(0, "A", vec![]);
    assert_eq!(get_discriminant(&v, 255), Ok(None));
    let v = variant(0, "A", vec![discriminant(1, "300")]);
    assert_eq!(
        get_discriminant(&v, 255),
        Err(DiscriminantError::InvalidNumber(1, NumberError::TooLarge))
    );
    assert_eq!(get_discriminant(&v, 0xffff_ffff), Ok(Some(300)));
    let v = variant(0, "A", vec![discriminant(1, "1"), discriminant(2, "2")]);
    assert_eq!(get_discriminant(&v, 255), Err(DiscriminantError::Duplicated));
    let v = variant(0, "A", vec![attr(1, "discriminant", AttrMeta::NameValue(MetaValue::Lit(LitValue::Str("x".to_string())), false))]);
    assert_eq!(get_discriminant(&v, 255), Err(DiscriminantError::ExpectedInteger(1)));
    let mut v = variant(0, "A", vec![]);
    v.native_discriminant = true;
    assert_eq!(get_discriminant(&v, 255), Err(DiscriminantError::NativeDiscriminant));
}

#[test]
fn deprecated_marker() {
    assert!(is_deprecated(&[deprecated(0)]));
    assert!(!is_deprecated(&[attr(0, "deprecated", AttrMeta::List(ListArgs::Empty, false))]));
    assert!(!is_deprecated(&[]));
}

#[test]
fn enum_codes_count_up_and_follow_declarations() {
    let vs = vec![
        variant(0, "A", vec![]),
        variant(1, "B", vec![]),
        variant(2, "C", vec![discriminant(3, "10")]),
        variant(4, "D", vec![]),
    ];
    assert!(!enum_codes_overflow(&vs));
    assert_eq!(enum_discriminant_codes(&vs), Ok(vec![0, 1, 10, 11]));
}

#[test]
fn enum_codes_refuse_unsorted_declarations() {
    let vs = vec![variant(0, "A", vec![discriminant(1, "5")]), variant(2, "B", vec![discriminant(3, "2")])];
    let e = enum_discriminant_codes(&vs).unwrap_err();
    assert_eq!(e.index, 1);
    assert_eq!(e.kind, CodeErrorKind::Unsorted);
}

#[test]
fn enum_codes_need_declaration_after_deprecated() {
    let vs = vec![variant(0, "A", vec![deprecated(1)]), variant(2, "B", vec![])];
    let e = enum_discriminant_codes(&vs).unwrap_err();
    assert_eq!(e.index, 1);
    assert_eq!(e.kind, CodeErrorKind::MissingAfterDeprecated(1));
    let vs = vec![variant(0, "A", vec![deprecated(1)]), variant(2, "B", vec![discriminant(3, "4")])];
    assert_eq!(enum_discriminant_codes(&vs), Ok(vec![0, 4]));
}

#[test]
fn enum_codes_report_bad_attribute() {
    let vs = vec![variant(0, "A", vec![discriminant(1, "1"), discriminant(2, "2")])];
    let e = enum_discriminant_codes(&vs).unwrap_err();
    assert_eq!(e.index, 0);
    assert_eq!(e.kind, CodeErrorKind::Discriminant(DiscriminantError::Duplicated));
}

#[test]
fn enum_codes_overflow_at_255() {
    let vs = vec![variant(0, "A", vec![discriminant(1, "255")])];
    assert!(enum_codes_overflow(&vs));
    let vs = vec![variant(0, "A", vec![discriminant(1, "254")])];
    assert!(!enum_codes_overflow(&vs));
    assert_eq!(enum_discriminant_codes(&vs), Ok(vec![254]));
}

#[test]
fn error_numbers_count_up() {
    assert_eq!(error_numbers(&vec![None, None, Some(5), None]), Ok(vec![0, 1, 5, 6]));
    assert_eq!(error_numbers(&vec![Some(3), Some(1)]), Err((1, NumberingError::Unsorted)));
    assert_eq!(error_numbers(&vec![]), Ok(vec![]));
    assert!(error_numbers_overflow(&vec![Some(u32::MAX)]));
    assert!(!error_numbers_overflow(&vec![Some(u32::MAX - 1)]));
}

fn msg(source: usize, args: ListArgs) -> AttributeInfo {
    attr(source, "msg", AttrMeta::List(args, false))
}

#[test]
fn error_variant_reads_its_attributes() {
    let v = VariantInfo {
        source: 0,
        name: "Overflow".to_string(),
        native_discriminant: false,
        attrs: vec![msg(1, ListArgs::FirstStr), discriminant(2, "12"), attr(3, "doc", AttrMeta::Other)],
        fields: FieldsShape::Unnamed(1),
    };
    assert!(!error_variant_unreadable(&v));
    let ev = ErrorVariant::from(v).unwrap();
    assert_eq!(ev.name, "Overflow");
    assert_eq!(ev.message, Some(1));
    assert_eq!(ev.code, Some(12));
    assert!(!ev.deprecated);
    assert_eq!(ev.attributes.len(), 1);
    assert_eq!(ev.attributes[0].source, 3);
}

#[test]
fn error_variant_refusals() {
    let v = variant(0, "A", vec![msg(1, ListArgs::FirstStr), msg(2, ListArgs::FirstStr)]);
    assert_eq!(ErrorVariant::from(v).err(), Some(ErrorVariantError::MsgTwice(2)));
    let v = variant(0, "A", vec![attr(1, "msg", AttrMeta::Path)]);
    assert_eq!(ErrorVariant::from(v).err(), Some(ErrorVariantError::MsgNotList(1)));
    let v = variant(0, "A", vec![msg(1, ListArgs::FirstOtherLit)]);
    assert_eq!(ErrorVariant::from(v).err(), Some(ErrorVariantError::MsgNotLiteralString(1)));
    let v = variant(0, "A", vec![msg(1, ListArgs::Empty)]);
    assert_eq!(ErrorVariant::from(v).err(), Some(ErrorVariantError::MsgFirstNotString(1)));
    let v = variant(0, "A", vec![deprecated(1), deprecated(2)]);
    assert_eq!(ErrorVariant::from(v).err(), Some(ErrorVariantError::DeprecatedTwice(2)));
    let v = variant(0, "A", vec![discriminant(1, "x")]);
    assert_eq!(
        ErrorVariant::from(v).err(),
        Some(ErrorVariantError::Discriminant(DiscriminantError::InvalidNumber(1, NumberError::InvalidDigit)))
    );
    let v = variant(0, "A", vec![msg(1, ListArgs::NotExprs)]);
    assert!(error_variant_unreadable(&v));
}

#[test]
fn error_enum_needs_code_after_deprecated() {
    let vs = vec![variant(0, "A", vec![deprecated(1)]), variant(2, "B", vec![])];
    let e = collect_error_variants(vs).err().unwrap();
    assert_eq!(e.index, 1);
    assert_eq!(e.kind, ErrorEnumErrorKind::CodeAfterDeprecated);
    let vs = vec![variant(0, "A", vec![deprecated(1)]), variant(2, "B", vec![discriminant(3, "9")])];
    let evs = collect_error_variants(vs).unwrap();
    assert_eq!(evs.len(), 2);
    assert!(evs[0].deprecated);
    assert_eq!(evs[1].code, Some(9));
}

#[test]
fn accounts_enum_starts_codes_at_one() {
    let vs = vec![variant(0, "UserAccount", vec![]), variant(1, "Vault2Data", vec![])];
    let e = accounts_enum(false, vs).ok().unwrap();
    assert!(e.initial_discriminant);
    assert_eq!(e.method_names, vec!["user_account".to_string(), "vault2_data".to_string()]);
    assert_eq!(e.variants.len(), 2);
    assert_eq!(e.variants[1].name, "Vault2Data");
    let with_one = vec![
        variant(0, "UserAccount", vec![discriminant(5, "1")]),
        variant(1, "Vault2Data", vec![]),
    ];
    assert_eq!(enum_discriminant_codes(&with_one), Ok(vec![1, 2]));
    let vs = vec![variant(0, "A", vec![])];
    assert!(!accounts_enum(true, vs).ok().unwrap().initial_discriminant);
    let vs = vec![variant(0, "A", vec![discriminant(1, "3")])];
    assert!(!accounts_enum(false, vs).ok().unwrap().initial_discriminant);
}

#[test]
fn accounts_enum_refusals() {
    let vs = vec![variant(0, "A", vec![discriminant(1, "0")])];
    assert_eq!(accounts_enum(false, vs).err(), Some(AccountsEnumError::ZeroDiscriminant(0)));
    let mut with_fields = variant(2, "B", vec![]);
    with_fields.fields = FieldsShape::Unnamed(1);
    let vs = vec![variant(0, "A", vec![]), with_fields];
    assert_eq!(
        accounts_enum(false, vs).err(),
        Some(AccountsEnumError::Variant(AccountVariantError::FieldsNotSupported(2)))
    );
    let vs = vec![variant(0, "A", vec![discriminant(1, "256")])];
    assert_eq!(
        accounts_enum(false, vs).err(),
        Some(AccountsEnumError::Discriminant(DiscriminantError::InvalidNumber(1, NumberError::TooLarge)))
    );
}

#[test]
fn account_variant_refuses_fields() {
    let v = variant(0, "A", vec![deprecated(1)]);
    let a = AccountVariant::from(v).ok().unwrap();
    assert_eq!(a.name, "A");
    assert_eq!(a.attributes.len(), 1);
    let mut v = variant(4, "B", vec![]);
    v.fields = FieldsShape::Named(vec!["x".to_string()]);
    assert_eq!(AccountVariant::from(v).err(), Some(AccountVariantError::FieldsNotSupported(4)));
    let mut v = variant(5, "C", vec![]);
    v.fields = FieldsShape::Named(vec![]);
    assert!(AccountVariant::from(v).is_ok());
}

#[test]
fn unreadable_message_matters_only_when_reached() {
    let first_refused = vec![
        variant(0, "A", vec![msg(1, ListArgs::FirstStr), msg(2, ListArgs::FirstStr)]),
        variant(3, "B", vec![msg(4, ListArgs::NotExprs)]),
    ];
    assert!(!error_variants_reach_unreadable(&first_refused));
    let e = collect_error_variants(first_refused).err().unwrap();
    assert_eq!(e.index, 0);
    assert_eq!(e.kind, ErrorEnumErrorKind::Variant(ErrorVariantError::MsgTwice(2)));
    let reached = vec![variant(0, "A", vec![]), variant(3, "B", vec![msg(4, ListArgs::NotExprs)])];
    assert!(error_variants_reach_unreadable(&reached));
    let after_deprecated = vec![
        variant(0, "A", vec![deprecated(1)]),
        variant(2, "B", vec![]),
        variant(3, "C", vec![msg(4, ListArgs::NotExprs)]),
    ];
    assert!(!error_variants_reach_unreadable(&after_deprecated));
}
