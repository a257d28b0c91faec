//! Plain-value descriptions of the parts of Rust syntax that the code
//! generators read: literals, argument values, attributes and variants.
//! Each element that the generators hand back or point errors at carries a
//! `source` number, by which the caller finds the syntax it described.
use vstd::prelude::*;

verus! {

/// A literal.
#[derive(Debug, Clone, PartialEq, Eq)]
pub enum LitValue {
    /// An integer literal, by its base-10 digits (suffix left out).
    Int(String),
    /// A string literal, by its value.
    Str(String),
    /// Any other literal.
    Other,
}

/// An expression, as far as the generators read it.
#[derive(Debug, Clone, PartialEq, Eq)]
pub enum MetaValue {
    /// A literal.
    Lit(LitValue),
    /// A path, by the identifiers of its segments.
    Path(Vec<String>),
    /// A tuple, by its number of elements.
    Tuple(usize),
    /// Any other expression.
    Other,
}

/// The arguments of a list attribute `#[name(...)]`, as far as they are read.
#[derive(Debug, Clone, Copy, PartialEq, Eq)]
pub enum ListArgs {
    /// The arguments are expressions and the first one is a string literal.
    FirstStr,
    /// The arguments are expressions and the first one is another literal.
    FirstOtherLit,
    /// The arguments are expressions and the first one is not a literal.
    FirstNotLit,
    /// There are no arguments.
    Empty,
    /// The arguments do not form a comma-separated list of expressions.
    NotExprs,
}

/// The form of an attribute after its path.
#[derive(Debug, Clone, PartialEq, Eq)]
pub enum AttrMeta {
    /// `#[name]`: nothing follows the path.
    Path,
    /// `#[name = value]`: the value as an expression (`Other` where it is
    /// none), and whether it reads as a type.
    NameValue(MetaValue, bool),
    /// `#[name(...)]`; the flag tells whether the arguments read as a path.
    List(ListArgs, bool),
    /// Any other form.
    Other,
}

/// An attribute.
#[derive(Debug, Clone, PartialEq, Eq)]
pub struct AttributeInfo {
    /// Identifies the attribute for the caller.
    pub source: usize,
    /// The identifiers of the attribute's path; a leading `::` is an empty first segment.
    pub path: Vec<String>,
    /// What follows the path.
    pub meta: AttrMeta,
}

/// The fields of a struct or an enum variant.
#[derive(Debug, Clone, PartialEq, Eq)]
pub enum FieldsShape {
    /// Named fields, by name.
    Named(Vec<String>),
    /// Unnamed fields, by their number.
    Unnamed(usize),
    /// No fields.
    Unit,
}

impl FieldsShape {
    /// The number of fields.
    pub open spec fn count(&self) -> nat {
        match self {
            FieldsShape::Named(v) => v@.len(),
            FieldsShape::Unnamed(n) => *n as nat,
            FieldsShape::Unit => 0,
        }
    }
}

/// An enum variant.
#[derive(Debug, Clone, PartialEq, Eq)]
pub struct VariantInfo {
    /// Identifies the variant for the caller.
    pub source: usize,
    /// The variant's name.
    pub name: String,
    /// Whether the variant has a native discriminant `= value`.
    pub native_discriminant: bool,
    /// The variant's attributes, in source order.
    pub attrs: Vec<AttributeInfo>,
    /// The variant's fields.
    pub fields: FieldsShape,
}

/// Whether a path is the single identifier `name`.
pub open spec fn path_is(path: Seq<String>, name: Seq<char>) -> bool {
    path.len() == 1 && path[0]@ == name
}

/// Whether the attribute's path is the single identifier `name`.
pub open spec fn attr_is(attr: AttributeInfo, name: Seq<char>) -> bool {
    path_is(attr.path@, name)
}

/// Tells whether `path` is the single identifier `name`.
pub fn path_is_ident(path: &Vec<String>, name: &str) -> (r: bool)
    ensures
        r == path_is(path@, name@),
{
    if path.len() != 1 {
        return false;
    }
    let expected: String = name.to_owned();
    path[0] == expected
}

/// Tells whether two texts are equal.
pub fn same_text(a: &String, b: &str) -> (r: bool)
    ensures
        r == (a@ == b@),
{
    let expected: String = b.to_owned();
    *a == expected
}

} // verus!
