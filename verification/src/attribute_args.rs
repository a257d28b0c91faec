//! The older `name = literal` argument lists of the `error_code` and
//! `constant` attributes.
use vstd::prelude::*;

use crate::syntax::{path_is, path_is_ident, LitValue};

verus! {

/// One item of an attribute's argument list.
pub enum NestedMetaInfo {
    /// `path = literal`.
    NameValue { source: usize, path: Vec<String>, lit: LitValue },
    /// `path(...)`.
    List { source: usize },
    /// `path`.
    Path { source: usize, path: Vec<String> },
    /// A bare literal.
    Lit { source: usize },
}

/// Why an argument list is refused; the fields are the item's source.
#[derive(Debug, Clone, Copy, PartialEq, Eq)]
pub enum AttributeArgError {
    /// A `name = value` item whose name is not known.
    UnknownAttribute(usize),
    /// Any other item that is not known.
    UnknownArgument(usize),
    /// The value must be an integer literal.
    ExpectedInteger(usize),
    /// The value must be a string literal.
    ExpectedString(usize),
}

/// The arguments of the older `error_code` attribute.
pub struct ErrorAttributes {
    /// The `offset = <integer>` item, by source.
    pub offset: Option<usize>,
    /// Whether `skip_test` is given.
    pub skip_test: bool,
}

/// Reads `args` in order, `offset` and `skip` being read already.
pub open spec fn error_attributes_scan(args: Seq<NestedMetaInfo>, offset: Option<usize>, skip: bool) -> Result<
    (Option<usize>, bool),
    AttributeArgError,
>
    decreases args.len(),
{
    if args.len() == 0 {
        Ok((offset, skip))
    } else {
        let rest = args.drop_first();
        match args[0] {
            NestedMetaInfo::NameValue { source, path, lit } => if path_is(path@, "offset"@) {
                match lit {
                    LitValue::Int(_) => error_attributes_scan(rest, Some(source), skip),
                    _ => Err(AttributeArgError::ExpectedInteger(source)),
                }
            } else {
                Err(AttributeArgError::UnknownAttribute(source))
            },
            NestedMetaInfo::List { source } => Err(AttributeArgError::UnknownArgument(source)),
            NestedMetaInfo::Path { source, path } => if path_is(path@, "skip_test"@) {
                error_attributes_scan(rest, offset, true)
            } else {
                Err(AttributeArgError::UnknownArgument(source))
            },
            NestedMetaInfo::Lit { source } => Err(AttributeArgError::UnknownArgument(source)),
        }
    }
}

impl ErrorAttributes {
    /// Reads `offset = <integer>` and `skip_test`; any other item is refused.
    pub fn from(args: Vec<NestedMetaInfo>) -> (r: Result<ErrorAttributes, AttributeArgError>)
        ensures
            match r {
                Ok(a) => error_attributes_scan(args@, None, false) == Ok::<(Option<usize>, bool), AttributeArgError>(
                    (a.offset, a.skip_test),
                ),
                Err(e) => error_attributes_scan(args@, None, false) == Err::<(Option<usize>, bool), AttributeArgError>(e),
            },
    {
        let mut result = ErrorAttributes { offset: None, skip_test: false };
        let mut i: usize = 0;
        assert(args@.skip(0) =~= args@);
        while i < args.len()
            invariant
                0 <= i <= args@.len(),
                error_attributes_scan(args@, None, false) == error_attributes_scan(
                    args@.skip(i as int),
                    result.offset,
                    result.skip_test,
                ),
            decreases args@.len() - i,
        {
            assert(args@.skip(i as int)[0] == args@[i as int]);
            assert(args@.skip(i as int).drop_first() =~= args@.skip(i + 1));
            match &args[i] {
                NestedMetaInfo::NameValue { source, path, lit } => {
                    if path_is_ident(path, "offset") {
                        match lit {
                            LitValue::Int(_) => {
                                result.offset = Some(*source);
                            },
                            _ => return Err(AttributeArgError::ExpectedInteger(*source)),
                        }
                    } else {
                        return Err(AttributeArgError::UnknownAttribute(*source));
                    }
                },
                NestedMetaInfo::List { source } => return Err(AttributeArgError::UnknownArgument(*source)),
                NestedMetaInfo::Path { source, path } => {
                    if path_is_ident(path, "skip_test") {
                        result.skip_test = true;
                    } else {
                        return Err(AttributeArgError::UnknownArgument(*source));
                    }
                },
                NestedMetaInfo::Lit { source } => return Err(AttributeArgError::UnknownArgument(*source)),
            }
            i = i + 1;
        }
        assert(args@.skip(i as int) =~= Seq::<NestedMetaInfo>::empty());
        Ok(result)
    }
}

/// The arguments of the `constant` attribute.
pub struct ConstantAttributes {
    /// The name of the constant; when missing the Rust identifier is used.
    pub alias: Option<String>,
}

/// Reads `args` in order, `alias` being read already.
pub open spec fn constant_attributes_scan(args: Seq<NestedMetaInfo>, alias: Option<Seq<char>>) -> Result<
    Option<Seq<char>>,
    AttributeArgError,
>
    decreases args.len(),
{
    if args.len() == 0 {
        Ok(alias)
    } else {
        let rest = args.drop_first();
        match args[0] {
            NestedMetaInfo::NameValue { source, path, lit } => if path_is(path@, "alias"@) {
                match lit {
                    LitValue::Str(s) => constant_attributes_scan(rest, Some(s@)),
                    _ => Err(AttributeArgError::ExpectedString(source)),
                }
            } else {
                Err(AttributeArgError::UnknownAttribute(source))
            },
            NestedMetaInfo::List { source } => Err(AttributeArgError::UnknownArgument(source)),
            NestedMetaInfo::Path { source, .. } => Err(AttributeArgError::UnknownArgument(source)),
            NestedMetaInfo::Lit { source } => Err(AttributeArgError::UnknownArgument(source)),
        }
    }
}

/// The alias as text.
pub open spec fn alias_view(a: Option<String>) -> Option<Seq<char>> {
    match a {
        Some(s) => Some(s@),
        None => None,
    }
}

impl ConstantAttributes {
    /// Reads `alias = "<name>"`; any other item is refused.
    pub fn from(args: Vec<NestedMetaInfo>) -> (r: Result<ConstantAttributes, AttributeArgError>)
        ensures
            match r {
                Ok(a) => constant_attributes_scan(args@, None) == Ok::<Option<Seq<char>>, AttributeArgError>(
                    alias_view(a.alias),
                ),
                Err(e) => constant_attributes_scan(args@, None) == Err::<Option<Seq<char>>, AttributeArgError>(e),
            },
    {
        let mut result = ConstantAttributes { alias: None };
        let mut i: usize = 0;
        assert(args@.skip(0) =~= args@);
        while i < args.len()
            invariant
                0 <= i <= args@.len(),
                constant_attributes_scan(args@, None) == constant_attributes_scan(
                    args@.skip(i as int),
                    alias_view(result.alias),
                ),
            decreases args@.len() - i,
        {
            assert(args@.skip(i as int)[0] == args@[i as int]);
            assert(args@.skip(i as int).drop_first() =~= args@.skip(i + 1));
            match &args[i] {
                NestedMetaInfo::NameValue { source, path, lit } => {
                    if path_is_ident(path, "alias") {
                        match lit {
                            LitValue::Str(s) => {
                                result.alias = Some(s.clone());
                            },
                            _ => return Err(AttributeArgError::ExpectedString(*source)),
                        }
                    } else {
                        return Err(AttributeArgError::UnknownAttribute(*source));
                    }
                },
                NestedMetaInfo::List { source } => return Err(AttributeArgError::UnknownArgument(*source)),
                NestedMetaInfo::Path { source, .. } => return Err(AttributeArgError::UnknownArgument(*source)),
                NestedMetaInfo::Lit { source } => return Err(AttributeArgError::UnknownArgument(*source)),
            }
            i = i + 1;
        }
        assert(args@.skip(i as int) =~= Seq::<NestedMetaInfo>::empty());
        Ok(result)
    }
}

} // verus!
