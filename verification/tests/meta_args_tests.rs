use fankor_macros::accounts::{AccountArguments, AccountsArguments};
use fankor_macros::error_code::{ErrorArguments, DEFAULT_ERROR_OFFSET};
use fankor_macros::instruction::{InstructionArguments, Validation};
use fankor_macros::meta_args::{FnkMetaArgument, FnkMetaArgumentList, MetaArgError};
use fankor_macros::numbers::{parse_decimal, NumberError};
use fankor_macros::syntax::{LitValue, MetaValue};

fn plain(source: usize, name: &str) -> FnkMetaArgument {
    FnkMetaArgument { source, name: name.to_string(), value: None }
}

fn valued(source: usize, name: &str, value: MetaValue) -> FnkMetaArgument {
    FnkMetaArgument { source, name: name.to_string(), value: Some(value) }
}

fn int_lit(digits: &str) -> MetaValue {
    MetaValue::Lit(LitValue::Int(digits.to_string()))
}

fn ident(name: &str) -> MetaValue {
    MetaValue::Path(vec![name.to_string()])
}

fn list(args: Vec<FnkMetaArgument>) -> FnkMetaArgumentList {
    FnkMetaArgumentList { list: args }
}

#[test]
fn parse_decimal_values() {
    assert_eq!(parse_decimal("0", 255), Ok(0));
    assert_eq!(parse_decimal("255", 255), Ok(255));
    assert_eq!(parse_decimal("256", 255), Err(NumberError::TooLarge));
    assert_eq!(parse_decimal("", 255), Err(NumberError::Empty));
    assert_eq!(parse_decimal("1x", 255), Err(NumberError::InvalidDigit));
    assert_eq!(parse_decimal("4294967295", 0xffff_ffff), Ok(4294967295));
}

#[test]
fn pop_takes_the_first_namesake() {
    let mut args = list(vec![plain(0, "a"), valued(1, "b", int_lit("3")), plain(2, "b")]);
    let popped = args.pop("b", None, false).unwrap().unwrap();
    assert_eq!(popped.source, 1);
    assert_eq!(args.list.len(), 2);
    assert_eq!(args.list[1].source, 2);
}

#[test]
fn pop_refuses_missing_and_wrong_forms() {
    let mut args = list(vec![plain(0, "a"), valued(1, "b", int_lit("3"))]);
    assert_eq!(args.pop("c", None, false).err(), Some(MetaArgError::Required("c".to_string())));
    assert!(args.pop("c", None, true).unwrap().is_none());
    assert_eq!(args.pop("a", Some(true), true).err(), Some(MetaArgError::MustHaveValue(0)));
    assert_eq!(args.pop("b", Some(false), true).err(), Some(MetaArgError::NoValueAccepted(1)));
    assert!(args.is_empty());
}

#[test]
fn pop_plain_and_element() {
    let mut args = list(vec![plain(0, "flag"), valued(1, "expr", ident("x"))]);
    assert_eq!(args.pop_plain("flag", true), Ok(true));
    assert_eq!(args.pop_plain("flag", true), Ok(false));
    let element = args.pop_element("expr", true).unwrap().unwrap();
    assert_eq!(element.value, Some(ident("x")));
    assert!(args.is_empty());
}

#[test]
fn pop_number_reads_u32() {
    let mut args = list(vec![
        valued(0, "a", int_lit("42")),
        valued(1, "b", int_lit("4294967296")),
        valued(2, "c", ident("x")),
        valued(3, "d", MetaValue::Lit(LitValue::Int("4294967295".to_string()))),
    ]);
    assert_eq!(args.pop_number("a", false), Ok(Some(42)));
    assert_eq!(args.pop_number("b", false), Err(MetaArgError::InvalidNumber(1, NumberError::TooLarge)));
    assert_eq!(args.pop_number("c", false), Err(MetaArgError::ExpectedInteger(2)));
    assert_eq!(args.pop_number("d", false), Ok(Some(u32::MAX)));
    assert_eq!(args.pop_number("e", true), Ok(None));
}

#[test]
fn pop_ident_reads_one_segment() {
    let mut args = list(vec![
        valued(0, "a", ident("Accounts")),
        valued(1, "b", MetaValue::Path(vec!["x".to_string(), "y".to_string()])),
        valued(2, "c", int_lit("1")),
    ]);
    assert_eq!(args.pop_ident("a", false), Ok(Some("Accounts".to_string())));
    assert_eq!(args.pop_ident("b", false), Err(MetaArgError::ExpectedIdentifier(1)));
    assert_eq!(args.pop_ident("c", false), Err(MetaArgError::ExpectedIdentifier(2)));
}

#[test]
fn duplicates_and_unknown_arguments() {
    let args = list(vec![plain(0, "a"), plain(1, "b"), plain(2, "a"), plain(3, "b")]);
    assert_eq!(args.error_on_duplicated(), Err(MetaArgError::Duplicated(0)));
    assert_eq!(args.error_on_unknown(), Err(MetaArgError::Unknown(3)));
    let args = list(vec![plain(0, "a"), plain(1, "b"), plain(2, "b")]);
    assert_eq!(args.error_on_duplicated(), Err(MetaArgError::Duplicated(1)));
    let args = list(vec![]);
    assert_eq!(args.error_on_duplicated(), Ok(()));
    assert_eq!(args.error_on_unknown(), Ok(()));
}

#[test]
fn pop_leaves_no_namesake_in_checked_list() {
    let mut args = list(vec![plain(0, "a"), plain(1, "b")]);
    assert_eq!(args.error_on_duplicated(), Ok(()));
    assert_eq!(args.pop_plain("a", false), Ok(true));
    assert_eq!(args.pop_plain("a", true), Ok(false));
}

#[test]
fn error_arguments_read_offset_and_flag() {
    let args = ErrorArguments::from(list(vec![valued(0, "offset", int_lit("100")), plain(1, "skip_ts_gen")])).unwrap();
    assert_eq!(args.offset, Some(100));
    assert!(args.skip_ts_gen);
    assert_eq!(args.effective_offset(), 100);
    let args = ErrorArguments::from(list(vec![])).unwrap();
    assert_eq!(args.offset, None);
    assert!(!args.skip_ts_gen);
    assert_eq!(args.effective_offset(), DEFAULT_ERROR_OFFSET);
    assert_eq!(DEFAULT_ERROR_OFFSET, 6000);
    assert_eq!(
        ErrorArguments::from(list(vec![plain(0, "other")])).err(),
        Some(MetaArgError::Unknown(0))
    );
    assert_eq!(
        ErrorArguments::from(list(vec![plain(0, "offset"), plain(1, "offset")])).err(),
        Some(MetaArgError::Duplicated(0))
    );
}

#[test]
fn instruction_arguments() {
    let args = InstructionArguments::from(list(vec![
        plain(0, "initial_validation"),
        valued(1, "final_validation", ident("check")),
        plain(2, "phantom"),
    ]))
    .unwrap();
    assert_eq!(args.initial_validation, Some(Validation::Implicit));
    assert_eq!(args.final_validation, Some(Validation::Explicit(1)));
    assert!(args.phantom);
    let args = InstructionArguments::from(list(vec![])).unwrap();
    assert_eq!(args.initial_validation, None);
    assert_eq!(args.final_validation, None);
    assert!(!args.phantom);
    assert_eq!(
        InstructionArguments::from(list(vec![valued(4, "phantom", int_lit("1"))])).err(),
        Some(MetaArgError::NoValueAccepted(4))
    );
}

#[test]
fn account_arguments_need_base() {
    let args = AccountArguments::from(list(vec![valued(0, "base", ident("ProgramAccount"))])).unwrap();
    assert_eq!(args.accounts_type_name, "ProgramAccount");
    assert_eq!(
        AccountArguments::from(list(vec![])).err(),
        Some(MetaArgError::Required("base".to_string()))
    );
    assert_eq!(
        AccountArguments::from(list(vec![plain(3, "base")])).err(),
        Some(MetaArgError::MustHaveValue(3))
    );
}

#[test]
fn accounts_arguments_take_optional_base() {
    let args = AccountsArguments::from(list(vec![])).unwrap();
    assert_eq!(args.accounts_type_name, None);
    let args = AccountsArguments::from(list(vec![valued(0, "base", ident("Main"))])).unwrap();
    assert_eq!(args.accounts_type_name, Some("Main".to_string()));
    assert_eq!(
        AccountsArguments::from(list(vec![valued(0, "base", ident("Main")), plain(1, "x")])).err(),
        Some(MetaArgError::Unknown(1))
    );
}
