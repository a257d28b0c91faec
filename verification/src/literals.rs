//! Taking the value out of a literal or an expression where the generators
//! expect an integer, a string or a single identifier.
use vstd::prelude::*;

use crate::syntax::{LitValue, MetaValue};

verus! {

/// Why a literal or an expression is refused.
#[derive(Debug, Clone, Copy, PartialEq, Eq)]
pub enum LiteralError {
    /// An integer literal was expected.
    ExpectedInteger,
    /// A string literal was expected.
    ExpectedString,
    /// A single identifier was expected.
    ExpectedIdentifier,
}

/// Takes the digits out of an integer literal.
pub fn unwrap_int_from_literal(lit: LitValue) -> (r: Result<String, LiteralError>)
    ensures
        match lit {
            LitValue::Int(d) => r == Ok::<String, LiteralError>(d),
            _ => r == Err::<String, LiteralError>(LiteralError::ExpectedInteger),
        },
{
    match lit {
        LitValue::Int(d) => Ok(d),
        _ => Err(LiteralError::ExpectedInteger),
    }
}

/// Takes the digits out of an expression that is an integer literal.
pub fn unwrap_int_from_expr(expr: MetaValue) -> (r: Result<String, LiteralError>)
    ensures
        match expr {
            MetaValue::Lit(LitValue::Int(d)) => r == Ok::<String, LiteralError>(d),
            _ => r == Err::<String, LiteralError>(LiteralError::ExpectedInteger),
        },
{
    match expr {
        MetaValue::Lit(lit) => unwrap_int_from_literal(lit),
        _ => Err(LiteralError::ExpectedInteger),
    }
}

/// Takes the identifier out of an expression that is a path of one segment.
pub fn unwrap_ident_from_expr(expr: MetaValue) -> (r: Result<String, LiteralError>)
    ensures
        match expr {
            MetaValue::Path(segments) => if segments@.len() == 1 {
                r == Ok::<String, LiteralError>(segments@[0])
            } else {
                r == Err::<String, LiteralError>(LiteralError::ExpectedIdentifier)
            },
            _ => r == Err::<String, LiteralError>(LiteralError::ExpectedIdentifier),
        },
{
    match expr {
        MetaValue::Path(segments) => {
            if segments.len() != 1 {
                return Err(LiteralError::ExpectedIdentifier);
            }
            let mut segments = segments;
            Ok(segments.remove(0))
        },
        _ => Err(LiteralError::ExpectedIdentifier),
    }
}

/// Takes the value out of a string literal.
pub fn unwrap_string_from_literal(lit: LitValue) -> (r: Result<String, LiteralError>)
    ensures
        match lit {
            LitValue::Str(s) => r == Ok::<String, LiteralError>(s),
            _ => r == Err::<String, LiteralError>(LiteralError::ExpectedString),
        },
{
    match lit {
        LitValue::Str(s) => Ok(s),
        _ => Err(LiteralError::ExpectedString),
    }
}

} // verus!
