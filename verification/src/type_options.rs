//! The `#[fankor(...)]` attribute of a struct or an enum, by which a type
//! says that it is an account (`account = <Discriminants>`) or the list of a
//! program's accounts (`accounts`). The serialization, zero-copy and
//! TypeScript generators each read it under their own rules.
use vstd::prelude::*;

use crate::meta_args::{
    lemma_first_match, duplicate_check, pop_ident_spec, pop_plain_spec, pop_rest, unknown_check, ArgFault,
    FnkMetaArgumentList, MetaArgError,
};
use crate::syntax::{path_is, path_is_ident, AttributeInfo};

verus! {

/// An attribute of a type, with its arguments read as an argument list
/// where they form one.
pub struct TypeAttribute {
    /// The attribute.
    pub info: AttributeInfo,
    /// The arguments in brackets as an argument list, or `None` when they are
    /// missing or do not form one.
    pub args: Option<FnkMetaArgumentList>,
}

/// The rules under which the `fankor` attribute is read.
#[derive(Debug, Clone, Copy, PartialEq, Eq)]
pub enum OptionsKind {
    /// A struct, for serialization, zero-copy access or TypeScript: `account
    /// = <ident>` is accepted and `accounts` refused.
    Struct,
    /// A struct, for deserialization: only `account = <ident>` is known.
    StructDe,
    /// An enum, for serialization or deserialization: `account = <ident>` or
    /// `accounts`, not both.
    Enum,
    /// An enum, for zero-copy access: `accounts` is accepted and a plain
    /// `account` refused.
    ZeroCopyEnum,
    /// An enum, for TypeScript: `accounts` is accepted and `account =
    /// <ident>` refused.
    TsGenEnum,
}

/// What the `fankor` attribute says of a type.
pub struct TypeOptions {
    /// The accounts-discriminant enum named by `account = <ident>`.
    pub account: Option<String>,
    /// Whether `accounts` is given.
    pub accounts: bool,
}

/// Why the `fankor` attribute of a type is refused.
#[derive(Debug, Clone, PartialEq, Eq)]
pub enum TypeOptionsError {
    /// The attribute (by source) is not of the form `#[fankor(<meta_list>)]`.
    Malformed(usize),
    /// An argument is refused.
    Arg(MetaArgError),
    /// `accounts` on a struct.
    AccountsOnStruct,
    /// `account` on an enum.
    AccountOnEnum,
    /// Both `account` and `accounts` in the attribute (by source).
    AccountAndAccounts(usize),
}

/// The view of a `TypeOptionsError`.
pub enum OptionsFault {
    /// The attribute (by source) is not of the form `#[fankor(<meta_list>)]`.
    Malformed(usize),
    /// An argument is refused.
    Arg(ArgFault),
    /// `accounts` on a struct.
    AccountsOnStruct,
    /// `account` on an enum.
    AccountOnEnum,
    /// Both `account` and `accounts` in the attribute (by source).
    AccountAndAccounts(usize),
}

impl View for TypeOptionsError {
    type V = OptionsFault;

    open spec fn view(&self) -> OptionsFault {
        match self {
            TypeOptionsError::Malformed(s) => OptionsFault::Malformed(*s),
            TypeOptionsError::Arg(e) => OptionsFault::Arg(e@),
            TypeOptionsError::AccountsOnStruct => OptionsFault::AccountsOnStruct,
            TypeOptionsError::AccountOnEnum => OptionsFault::AccountOnEnum,
            TypeOptionsError::AccountAndAccounts(s) => OptionsFault::AccountAndAccounts(*s),
        }
    }
}

/// The options as plain values: the account enum's name and the `accounts` flag.
pub type OptionsView = (Option<Seq<char>>, bool);

/// The outcome of reading the options, seen through views.
pub open spec fn options_view(r: Result<TypeOptions, TypeOptionsError>) -> Result<OptionsView, OptionsFault> {
    match r {
        Ok(o) => Ok(
            (
                match o.account {
                    Some(a) => Some(a@),
                    None => None,
                },
                o.accounts,
            ),
        ),
        Err(e) => Err(e@),
    }
}

/// Reads the rest of the list after `account`/`accounts` were taken out.
pub open spec fn finish_spec(rest: Seq<crate::meta_args::FnkMetaArgument>, v: OptionsView) -> Result<OptionsView, OptionsFault> {
    match unknown_check(rest) {
        Err(e) => Err(OptionsFault::Arg(e)),
        Ok(_) => Ok(v),
    }
}

/// What reading the argument list `list` of the `fankor` attribute (by
/// source `source`) under `kind` gives.
pub open spec fn options_args_spec(list: Seq<crate::meta_args::FnkMetaArgument>, kind: OptionsKind, source: usize) -> Result<
    OptionsView,
    OptionsFault,
> {
    match duplicate_check(list) {
        Err(e) => Err(OptionsFault::Arg(e)),
        Ok(_) => match kind {
            OptionsKind::ZeroCopyEnum | OptionsKind::TsGenEnum => match pop_plain_spec(list, "accounts"@, true) {
                Err(e) => Err(OptionsFault::Arg(e)),
                Ok(accounts) => {
                    let l1 = pop_rest(list, "accounts"@);
                    let l2 = pop_rest(l1, "account"@);
                    if kind is ZeroCopyEnum {
                        match pop_plain_spec(l1, "account"@, true) {
                            Err(e) => Err(OptionsFault::Arg(e)),
                            Ok(true) => Err(OptionsFault::AccountOnEnum),
                            Ok(false) => finish_spec(l2, (None, accounts)),
                        }
                    } else {
                        match pop_ident_spec(l1, "account"@, true) {
                            Err(e) => Err(OptionsFault::Arg(e)),
                            Ok(Some(_)) => Err(OptionsFault::AccountOnEnum),
                            Ok(None) => finish_spec(l2, (None, accounts)),
                        }
                    }
                },
            },
            _ => match pop_ident_spec(list, "account"@, true) {
                Err(e) => Err(OptionsFault::Arg(e)),
                Ok(account) => {
                    let l1 = pop_rest(list, "account"@);
                    if kind is StructDe {
                        finish_spec(l1, (account, false))
                    } else {
                        match pop_plain_spec(l1, "accounts"@, true) {
                            Err(e) => Err(OptionsFault::Arg(e)),
                            Ok(accounts) => if accounts && kind is Struct {
                                Err(OptionsFault::AccountsOnStruct)
                            } else if accounts && account is Some {
                                Err(OptionsFault::AccountAndAccounts(source))
                            } else {
                                finish_spec(pop_rest(l1, "accounts"@), (account, accounts))
                            },
                        }
                    }
                },
            },
        },
    }
}

/// The position of the first `fankor` attribute.
pub open spec fn first_fankor(attrs: Seq<TypeAttribute>) -> Option<int>
    decreases attrs.len(),
{
    if attrs.len() == 0 {
        None
    } else if path_is(attrs[0].info.path@, "fankor"@) {
        Some(0)
    } else {
        match first_fankor(attrs.drop_first()) {
            Some(i) => Some(i + 1),
            None => None,
        }
    }
}

/// What the attributes `attrs` of a type say under `kind`: only the first
/// `fankor` attribute is read; without one, there is no option.
pub open spec fn type_options_spec(attrs: Seq<TypeAttribute>, kind: OptionsKind) -> Result<OptionsView, OptionsFault> {
    match first_fankor(attrs) {
        None => Ok((None, false)),
        Some(i) => match attrs[i].args {
            None => Err(OptionsFault::Malformed(attrs[i].info.source)),
            Some(list) => options_args_spec(list.list@, kind, attrs[i].info.source),
        },
    }
}

fn find_fankor(attrs: &Vec<TypeAttribute>) -> (r: Option<usize>)
    ensures
        match r {
            Some(i) => first_fankor(attrs@) == Some(i as int) && i < attrs@.len(),
            None => first_fankor(attrs@) is None,
        },
{
    let mut i: usize = 0;
    assert(attrs@.skip(0) =~= attrs@);
    while i < attrs.len()
        invariant
            0 <= i <= attrs@.len(),
            first_fankor(attrs@) == match first_fankor(attrs@.skip(i as int)) {
                Some(k) => Some(k + i),
                None => None::<int>,
            },
        decreases attrs@.len() - i,
    {
        assert(attrs@.skip(i as int).drop_first() =~= attrs@.skip(i + 1));
        if path_is_ident(&attrs[i].info.path, "fankor") {
            return Some(i);
        }
        i = i + 1;
    }
    None
}

fn read_options(list: FnkMetaArgumentList, kind: OptionsKind, source: usize) -> (r: Result<TypeOptions, TypeOptionsError>)
    ensures
        options_view(r) == options_args_spec(list.list@, kind, source),
{
    let mut args = list;
    match args.error_on_duplicated() {
        Ok(()) => {},
        Err(e) => return Err(TypeOptionsError::Arg(e)),
    }
    let mut account: Option<String> = None;
    let mut accounts = false;
    match kind {
        OptionsKind::ZeroCopyEnum | OptionsKind::TsGenEnum => {
            accounts = match args.pop_plain("accounts", true) {
                Ok(v) => v,
                Err(e) => return Err(TypeOptionsError::Arg(e)),
            };
            let refused = match kind {
                OptionsKind::ZeroCopyEnum => match args.pop_plain("account", true) {
                    Ok(v) => v,
                    Err(e) => return Err(TypeOptionsError::Arg(e)),
                },
                _ => match args.pop_ident("account", true) {
                    Ok(v) => v.is_some(),
                    Err(e) => return Err(TypeOptionsError::Arg(e)),
                },
            };
            if refused {
                return Err(TypeOptionsError::AccountOnEnum);
            }
        },
        _ => {
            account = match args.pop_ident("account", true) {
                Ok(v) => v,
                Err(e) => return Err(TypeOptionsError::Arg(e)),
            };
            match kind {
                OptionsKind::StructDe => {},
                _ => {
                    accounts = match args.pop_plain("accounts", true) {
                        Ok(v) => v,
                        Err(e) => return Err(TypeOptionsError::Arg(e)),
                    };
                    if accounts {
                        match kind {
                            OptionsKind::Struct => return Err(TypeOptionsError::AccountsOnStruct),
                            _ => {},
                        }
                        if account.is_some() {
                            return Err(TypeOptionsError::AccountAndAccounts(source));
                        }
                    }
                },
            }
        },
    }
    match args.error_on_unknown() {
        Ok(()) => {},
        Err(e) => return Err(TypeOptionsError::Arg(e)),
    }
    Ok(TypeOptions { account, accounts })
}

/// Reads the first `fankor` attribute of a type under the rules of `kind`.
pub fn type_options(attrs: Vec<TypeAttribute>, kind: OptionsKind) -> (r: Result<TypeOptions, TypeOptionsError>)
    ensures
        options_view(r) == type_options_spec(attrs@, kind),
{
    let mut attrs = attrs;
    let ghost orig = attrs@;
    match find_fankor(&attrs) {
        None => Ok(TypeOptions { account: None, accounts: false }),
        Some(i) => {
            let attr = attrs.remove(i);
            assert(attr == orig[i as int]);
            match attr.args {
                None => Err(TypeOptionsError::Malformed(attr.info.source)),
                Some(list) => read_options(list, kind, attr.info.source),
            }
        },
    }
}

/// Law: the options never name an account enum together with `accounts`;
/// a struct is never a list of accounts, and the zero-copy and TypeScript
/// readings of an enum never name an account enum.
pub proof fn law_account_excludes_accounts(attrs: Seq<TypeAttribute>, kind: OptionsKind)
    ensures
        type_options_spec(attrs, kind) matches Ok(o) ==> {
            &&& !(o.0 is Some && o.1)
            &&& (kind is Struct || kind is StructDe) ==> !o.1
            &&& (kind is ZeroCopyEnum || kind is TsGenEnum) ==> o.0 is None
        },
{
}

proof fn lemma_absent_plain(list: Seq<crate::meta_args::FnkMetaArgument>, name: Seq<char>)
    ensures
        pop_plain_spec(list, name, true) == Ok::<bool, ArgFault>(false) ==> pop_rest(list, name) == list,
        pop_plain_spec(list, name, true) != Ok::<bool, ArgFault>(false) ==> list.len() > 0,
{
    lemma_first_match(list, name);
}

/// Law: a struct's serializer and deserializer read its `fankor` attribute
/// alike: one is derived exactly when the other is, and both then put the
/// same account enum's code first.
pub proof fn law_struct_serde_agree(attrs: Seq<TypeAttribute>)
    ensures
        (type_options_spec(attrs, OptionsKind::Struct) is Ok) == (type_options_spec(attrs, OptionsKind::StructDe) is Ok),
        type_options_spec(attrs, OptionsKind::Struct) matches Ok(o) ==> type_options_spec(attrs, OptionsKind::StructDe)
            == Ok::<OptionsView, OptionsFault>(o),
{
    match first_fankor(attrs) {
        None => {},
        Some(i) => match attrs[i].args {
            None => {},
            Some(l) => {
                let list = l.list@;
                let l1 = pop_rest(list, "account"@);
                lemma_absent_plain(l1, "accounts"@);
                if pop_plain_spec(l1, "accounts"@, true) != Ok::<bool, ArgFault>(false) {
                    assert(unknown_check(l1) is Err);
                }
            },
        },
    }
}

} // verus!
