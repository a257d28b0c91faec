//! The `error_code` macro: its arguments, the attributes of each error
//! variant (`#[msg(...)]`, `#[deprecated]`, `#[discriminant = n]`), and the
//! numbering of the errors.
use vstd::prelude::*;

use crate::discriminants::{discriminant_spec, get_discriminant, DiscriminantError};
use crate::meta_args::{
    duplicate_check, pop_number_spec, pop_plain_spec, pop_rest, unknown_check, ArgFault,
    FnkMetaArgumentList, MetaArgError,
};
use crate::syntax::{attr_is, path_is_ident, AttrMeta, AttributeInfo, FieldsShape, ListArgs, VariantInfo};

verus! {

/// The offset added to the error numbers when the arguments give none.
pub const DEFAULT_ERROR_OFFSET: u32 = 6000;

/// The arguments of the `error_code` macro.
pub struct ErrorArguments {
    /// The starting offset of the error list.
    pub offset: Option<u32>,
    /// Whether to leave out the `TsGen` derive.
    pub skip_ts_gen: bool,
}

/// What `ErrorArguments::from` gives for an argument list, by offset and flag.
pub open spec fn error_arguments_spec(list: Seq<crate::meta_args::FnkMetaArgument>) -> Result<
    (Option<u32>, bool),
    ArgFault,
> {
    match duplicate_check(list) {
        Err(e) => Err(e),
        Ok(_) => match pop_number_spec(list, "offset"@, true) {
            Err(e) => Err(e),
            Ok(offset) => {
                let l1 = pop_rest(list, "offset"@);
                match pop_plain_spec(l1, "skip_ts_gen"@, true) {
                    Err(e) => Err(e),
                    Ok(skip) => match unknown_check(pop_rest(l1, "skip_ts_gen"@)) {
                        Err(e) => Err(e),
                        Ok(_) => Ok((offset, skip)),
                    },
                }
            },
        },
    }
}

impl ErrorArguments {
    /// Reads the arguments `offset = <u32>` and `skip_ts_gen`, both optional;
    /// a repeated or unknown argument is refused.
    pub fn from(args: FnkMetaArgumentList) -> (r: Result<ErrorArguments, MetaArgError>)
        ensures
            match r {
                Ok(a) => error_arguments_spec(args.list@) == Ok::<(Option<u32>, bool), ArgFault>(
                    (a.offset, a.skip_ts_gen),
                ),
                Err(e) => error_arguments_spec(args.list@) == Err::<(Option<u32>, bool), ArgFault>(
                    e@,
                ),
            },
    {
        let mut args = args;
        match args.error_on_duplicated() {
            Ok(()) => {},
            Err(e) => return Err(e),
        }
        let offset = match args.pop_number("offset", true) {
            Ok(v) => v,
            Err(e) => return Err(e),
        };
        let skip_ts_gen = match args.pop_plain("skip_ts_gen", true) {
            Ok(v) => v,
            Err(e) => return Err(e),
        };
        match args.error_on_unknown() {
            Ok(()) => {},
            Err(e) => return Err(e),
        }
        Ok(ErrorArguments { offset, skip_ts_gen })
    }

    /// The offset that the error numbers start from.
    pub fn effective_offset(&self) -> (r: u32)
        ensures
            r == match self.offset {
                Some(o) => o,
                None => DEFAULT_ERROR_OFFSET,
            },
    {
        match self.offset {
            Some(o) => o,
            None => DEFAULT_ERROR_OFFSET,
        }
    }
}

/// Why the attributes of an error variant are refused.
#[derive(Debug, Clone, Copy, PartialEq, Eq)]
pub enum ErrorVariantError {
    /// The discriminant attribute is refused.
    Discriminant(DiscriminantError),
    /// A second `msg` attribute (by source).
    MsgTwice(usize),
    /// A `msg` attribute (by source) that is not a list `#[msg(...)]`.
    MsgNotList(usize),
    /// The first argument of `msg` (by source) is a literal but not a string.
    MsgNotLiteralString(usize),
    /// The first argument of `msg` (by source) is missing or not a literal.
    MsgFirstNotString(usize),
    /// A second `deprecated` attribute (by source).
    DeprecatedTwice(usize),
}

/// An error variant with its attributes read.
pub struct ErrorVariant {
    /// Identifies the variant for the caller.
    pub source: usize,
    /// The variant's name.
    pub name: String,
    /// The `msg` attribute (by source) that gives the error message.
    pub message: Option<usize>,
    /// The attributes that stay on the variant.
    pub attributes: Vec<AttributeInfo>,
    /// The variant's fields.
    pub fields: FieldsShape,
    /// The number that the variant declares.
    pub code: Option<u32>,
    /// Whether the variant is deprecated.
    pub deprecated: bool,
}

/// The outcome of reading error-variant attributes: the `msg` attribute,
/// whether one is `deprecated`, and the attributes that stay.
pub struct VariantAttrs {
    /// The `msg` attribute, by source.
    pub message: Option<usize>,
    /// Whether a `deprecated` attribute is present.
    pub deprecated: bool,
    /// The attributes that stay on the variant, in order.
    pub kept: Seq<AttributeInfo>,
}

/// Puts `a` in front of the attributes that stay.
pub open spec fn keep_attr(a: AttributeInfo, r: Option<Result<VariantAttrs, ErrorVariantError>>) -> Option<
    Result<VariantAttrs, ErrorVariantError>,
> {
    match r {
        Some(Ok(v)) => Some(Ok(VariantAttrs { message: v.message, deprecated: v.deprecated, kept: seq![a] + v.kept })),
        other => other,
    }
}

/// Reads the attributes `attrs` of an error variant, `msg` and `deprecated`
/// telling what is already read. `None` stands for a `msg` attribute whose
/// arguments are not a list of expressions, on which the macro panics.
pub open spec fn variant_attrs_scan(attrs: Seq<AttributeInfo>, msg: Option<usize>, deprecated: bool) -> Option<
    Result<VariantAttrs, ErrorVariantError>,
>
    decreases attrs.len(),
{
    if attrs.len() == 0 {
        Some(Ok(VariantAttrs { message: msg, deprecated, kept: Seq::empty() }))
    } else {
        let a = attrs[0];
        let rest = attrs.drop_first();
        if attr_is(a, "msg"@) {
            if msg is Some {
                Some(Err(ErrorVariantError::MsgTwice(a.source)))
            } else {
                match a.meta {
                    AttrMeta::List(args, _) => match args {
                        ListArgs::FirstStr => variant_attrs_scan(rest, Some(a.source), deprecated),
                        ListArgs::FirstOtherLit => Some(
                            Err(ErrorVariantError::MsgNotLiteralString(a.source)),
                        ),
                        ListArgs::NotExprs => None,
                        _ => Some(Err(ErrorVariantError::MsgFirstNotString(a.source))),
                    },
                    _ => Some(Err(ErrorVariantError::MsgNotList(a.source))),
                }
            }
        } else if attr_is(a, "deprecated"@) {
            if deprecated {
                Some(Err(ErrorVariantError::DeprecatedTwice(a.source)))
            } else {
                keep_attr(a, variant_attrs_scan(rest, msg, true))
            }
        } else {
            keep_attr(a, variant_attrs_scan(rest, msg, deprecated))
        }
    }
}

/// The attributes of a variant without its `discriminant` attributes.
pub open spec fn without_discriminant(attrs: Seq<AttributeInfo>) -> Seq<AttributeInfo>
    decreases attrs.len(),
{
    if attrs.len() == 0 {
        Seq::empty()
    } else if attr_is(attrs[0], "discriminant"@) {
        without_discriminant(attrs.drop_first())
    } else {
        seq![attrs[0]] + without_discriminant(attrs.drop_first())
    }
}

/// What `ErrorVariant::from` gives for a variant, `None` standing for a panic.
pub open spec fn error_variant_spec(v: VariantInfo) -> Option<Result<(Option<u32>, VariantAttrs), ErrorVariantError>> {
    match discriminant_spec(v, u32::MAX as u64) {
        Err(e) => Some(Err(ErrorVariantError::Discriminant(e))),
        Ok(code) => match variant_attrs_scan(without_discriminant(v.attrs@), None, false) {
            None => None,
            Some(Err(e)) => Some(Err(e)),
            Some(Ok(va)) => Some(
                Ok(
                    (
                        match code {
                            Some(c) => Some(c as u32),
                            None => None,
                        },
                        va,
                    ),
                ),
            ),
        },
    }
}

/// Whether reading the variant's attributes does not panic.
pub open spec fn error_variant_readable(v: VariantInfo) -> bool {
    error_variant_spec(v) is Some
}

/// Whether `ev` is what `ErrorVariant::from` gives for `v`.
pub open spec fn error_variant_matches(ev: ErrorVariant, v: VariantInfo) -> bool {
    error_variant_spec(v) matches Some(Ok((code, va))) && ev.code == code && ev.message == va.message
        && ev.deprecated == va.deprecated && ev.attributes@ == va.kept && ev.name == v.name
        && ev.source == v.source && ev.fields == v.fields
}

proof fn lemma_keep_prefix(ks: Seq<AttributeInfo>, a: AttributeInfo, r: Option<Result<VariantAttrs, ErrorVariantError>>)
    ensures
        keep_all(ks.push(a), r) == keep_all(ks, keep_attr(a, r)),
{
    match r {
        Some(Ok(v)) => {
            assert(ks.push(a) + v.kept =~= ks + (seq![a] + v.kept));
        },
        _ => {},
    }
}

/// Puts the attributes `ks` in front of the attributes that stay.
pub open spec fn keep_all(ks: Seq<AttributeInfo>, r: Option<Result<VariantAttrs, ErrorVariantError>>) -> Option<
    Result<VariantAttrs, ErrorVariantError>,
> {
    match r {
        Some(Ok(v)) => Some(Ok(VariantAttrs { message: v.message, deprecated: v.deprecated, kept: ks + v.kept })),
        other => other,
    }
}

fn remove_discriminant_attrs(attrs: Vec<AttributeInfo>) -> (r: Vec<AttributeInfo>)
    ensures
        r@ == without_discriminant(attrs@),
{
    let mut out: Vec<AttributeInfo> = Vec::new();
    let mut rest = attrs;
    let ghost orig = rest@;
    let mut items: Vec<AttributeInfo> = Vec::new();
    // Move the attributes into `items` in reverse, then keep them in order.
    while rest.len() > 0
        invariant
            items@ + rest@.reverse() =~= orig.reverse(),
        decreases rest@.len(),
    {
        let a = rest.pop().unwrap();
        proof {
            assert(rest@.push(a).reverse() =~= seq![a] + rest@.reverse());
        }
        items.push(a);
    }
    assert(items@ =~= orig.reverse());
    assert(items@.reverse() =~= orig);
    while items.len() > 0
        invariant
            out@ + without_discriminant(items@.reverse()) =~= without_discriminant(orig),
        decreases items@.len(),
    {
        let ghost before = items@;
        let a = items.pop().unwrap();
        proof {
            assert(before =~= items@.push(a));
            assert(before.reverse() =~= seq![a] + items@.reverse());
            lemma_filter_front(a, items@.reverse());
        }
        if !path_is_ident(&a.path, "discriminant") {
            let ghost out0 = out@;
            out.push(a);
            assert(out0 + (seq![a] + without_discriminant(items@.reverse())) =~= out@ + without_discriminant(items@.reverse()));
        }
    }
    assert(items@.reverse() =~= Seq::<AttributeInfo>::empty());
    assert(without_discriminant(Seq::<AttributeInfo>::empty()) =~= Seq::<AttributeInfo>::empty());
    assert(out@ + Seq::<AttributeInfo>::empty() =~= out@);
    out
}

proof fn lemma_filter_front(a: AttributeInfo, s: Seq<AttributeInfo>)
    ensures
        without_discriminant(seq![a] + s) == if attr_is(a, "discriminant"@) {
            without_discriminant(s)
        } else {
            seq![a] + without_discriminant(s)
        },
{
    assert((seq![a] + s).drop_first() =~= s);
    assert((seq![a] + s)[0] == a);
}

impl ErrorVariant {
    /// Reads an error variant: its declared number (`#[discriminant = n]`,
    /// which does not stay on the variant), its `#[msg(...)]` attribute,
    /// which must appear at most once, be a list and start with a string
    /// literal, and its `#[deprecated]` marker, which must appear at most once.
    pub fn from(variant: VariantInfo) -> (r: Result<ErrorVariant, ErrorVariantError>)
        requires
            error_variant_readable(variant),
        ensures
            match r {
                Ok(ev) => error_variant_matches(ev, variant),
                Err(e) => error_variant_spec(variant) == Some(
                    Err::<(Option<u32>, VariantAttrs), ErrorVariantError>(e),
                ),
            },
    {
        let code = match get_discriminant(&variant, 0xffff_ffff) {
            Ok(c) => c,
            Err(e) => return Err(ErrorVariantError::Discriminant(e)),
        };
        let ghost v0 = variant;
        let VariantInfo { source, name, native_discriminant: _, attrs, fields } = variant;
        let attributes = remove_discriminant_attrs(attrs);
        let mut error_variant = ErrorVariant {
            source,
            name,
            message: None,
            attributes,
            fields,
            code: match code {
                Some(c) => Some(c as u32),
                None => None,
            },
            deprecated: false,
        };
        match error_variant.parse_attributes() {
            Ok(()) => {},
            Err(e) => return Err(e),
        }
        Ok(error_variant)
    }

    /// Reads the `msg` and `deprecated` attributes, taking the `msg` one off.
    fn parse_attributes(&mut self) -> (r: Result<(), ErrorVariantError>)
        requires
            old(self).message is None,
            !old(self).deprecated,
            variant_attrs_scan(old(self).attributes@, None, false) is Some,
        ensures
            final(self).source == old(self).source,
            final(self).name == old(self).name,
            final(self).fields == old(self).fields,
            final(self).code == old(self).code,
            match r {
                Ok(()) => variant_attrs_scan(old(self).attributes@, None, false) == Some(
                    Ok::<VariantAttrs, ErrorVariantError>(
                        VariantAttrs {
                            message: final(self).message,
                            deprecated: final(self).deprecated,
                            kept: final(self).attributes@,
                        },
                    ),
                ),
                Err(e) => variant_attrs_scan(old(self).attributes@, None, false) == Some(
                    Err::<VariantAttrs, ErrorVariantError>(e),
                ),
            },
    {
        let ghost orig = self.attributes@;
        let mut index: usize = 0;
        assert(self.attributes@.skip(0) =~= orig);
        assert(keep_all(Seq::empty(), variant_attrs_scan(orig, None, false)) == variant_attrs_scan(orig, None, false)) by {
            match variant_attrs_scan(orig, None, false) {
                Some(Ok(v)) => { assert(Seq::<AttributeInfo>::empty() + v.kept =~= v.kept); },
                _ => {},
            }
        }
        while index < self.attributes.len()
            invariant
                0 <= index <= self.attributes@.len(),
                self.source == old(self).source,
                self.name == old(self).name,
                self.fields == old(self).fields,
                self.code == old(self).code,
                orig == old(self).attributes@,
                variant_attrs_scan(orig, None, false) == keep_all(
                    self.attributes@.take(index as int),
                    variant_attrs_scan(self.attributes@.skip(index as int), self.message, self.deprecated),
                ),
                variant_attrs_scan(orig, None, false) is Some,
            decreases self.attributes@.len() - index,
        {
            let ghost cur = self.attributes@;
            let ghost suffix = cur.skip(index as int);
            assert(suffix[0] == cur[index as int]);
            assert(suffix.drop_first() =~= cur.skip(index + 1));
            let is_msg = path_is_ident(&self.attributes[index].path, "msg");
            if is_msg {
                let attribute = self.attributes.remove(index);
                assert(self.attributes@.take(index as int) =~= cur.take(index as int));
                assert(self.attributes@.skip(index as int) =~= cur.skip(index + 1));
                assert(attribute == cur[index as int]);
                assert(attr_is(suffix[0], "msg"@));
                if self.message.is_some() {
                    assert(variant_attrs_scan(suffix, self.message, self.deprecated) == Some(
                        Err::<VariantAttrs, ErrorVariantError>(ErrorVariantError::MsgTwice(attribute.source))));
                    return Err(ErrorVariantError::MsgTwice(attribute.source));
                }
                match attribute.meta {
                    AttrMeta::List(args, _) => match args {
                        ListArgs::FirstStr => {},
                        ListArgs::FirstOtherLit => {
                            return Err(ErrorVariantError::MsgNotLiteralString(attribute.source));
                        },
                        ListArgs::NotExprs => {
                            assert(false);
                            return Err(ErrorVariantError::MsgFirstNotString(attribute.source));
                        },
                        _ => {
                            return Err(ErrorVariantError::MsgFirstNotString(attribute.source));
                        },
                    },
                    _ => {
                        return Err(ErrorVariantError::MsgNotList(attribute.source));
                    },
                }
                self.message = Some(attribute.source);
            } else if path_is_ident(&self.attributes[index].path, "deprecated") {
                if self.deprecated {
                    return Err(ErrorVariantError::DeprecatedTwice(self.attributes[index].source));
                }
                self.deprecated = true;
                proof {
                    lemma_keep_prefix(cur.take(index as int), cur[index as int], variant_attrs_scan(cur.skip(index + 1), self.message, true));
                    assert(cur.take(index as int).push(cur[index as int]) =~= cur.take(index + 1));
                }
                index = index + 1;
            } else {
                proof {
                    lemma_keep_prefix(cur.take(index as int), cur[index as int], variant_attrs_scan(cur.skip(index + 1), self.message, self.deprecated));
                    assert(cur.take(index as int).push(cur[index as int]) =~= cur.take(index + 1));
                }
                index = index + 1;
            }
        }
        assert(self.attributes@.skip(index as int) =~= Seq::<AttributeInfo>::empty());
        assert(self.attributes@.take(index as int) =~= self.attributes@);
        Ok(())
    }
}


/// The outcome of reading a variant's attributes as far as the numbering
/// needs it: `None` for a panic, `Some(None)` for a refusal, and otherwise
/// whether the variant is deprecated.
pub open spec fn scan_shape(r: Option<Result<VariantAttrs, ErrorVariantError>>) -> Option<Option<bool>> {
    match r {
        None => None,
        Some(Err(_)) => Some(None),
        Some(Ok(va)) => Some(Some(va.deprecated)),
    }
}

/// What reading a variant gives as far as the numbering needs it: `None`
/// for a panic, `Some(None)` for a refusal, and otherwise whether the
/// variant declares its number and whether it is deprecated.
pub open spec fn variant_outcome(v: VariantInfo) -> Option<Option<(bool, bool)>> {
    match error_variant_spec(v) {
        None => None,
        Some(Err(_)) => Some(None),
        Some(Ok((code, va))) => Some(Some((code is Some, va.deprecated))),
    }
}

fn peek_error_variant(variant: &VariantInfo) -> (r: Option<Option<(bool, bool)>>)
    ensures
        r == variant_outcome(*variant),
{
    let code = match get_discriminant(variant, 0xffff_ffff) {
        Ok(c) => c,
        Err(_) => return Some(None),
    };
    let attrs = &variant.attrs;
    let mut message: Option<usize> = None;
    let mut deprecated = false;
    let mut i: usize = 0;
    assert(attrs@.skip(0) =~= attrs@);
    while i < attrs.len()
        invariant
            0 <= i <= attrs@.len(),
            attrs@ == variant.attrs@,
            discriminant_spec(*variant, u32::MAX as u64) is Ok,
            scan_shape(variant_attrs_scan(without_discriminant(attrs@), None, false))
                == scan_shape(variant_attrs_scan(without_discriminant(attrs@.skip(i as int)), message, deprecated)),
        decreases attrs@.len() - i,
    {
        let a = &attrs[i];
        let ghost suffix = attrs@.skip(i as int);
        proof {
            assert(suffix =~= seq![*a] + attrs@.skip(i + 1));
            lemma_filter_front(*a, attrs@.skip(i + 1));
            let w = without_discriminant(attrs@.skip(i + 1));
            assert((seq![*a] + w).drop_first() =~= w);
            assert((seq![*a] + w)[0] == *a);
        }
        if path_is_ident(&a.path, "discriminant") {
        } else if path_is_ident(&a.path, "msg") {
            if message.is_some() {
                return Some(None);
            }
            match &a.meta {
                AttrMeta::List(ListArgs::FirstStr, _) => {
                    message = Some(a.source);
                },
                AttrMeta::List(ListArgs::NotExprs, _) => {
                    return None;
                },
                _ => {
                    return Some(None);
                },
            }
        } else if path_is_ident(&a.path, "deprecated") {
            if deprecated {
                return Some(None);
            }
            deprecated = true;
        }
        i = i + 1;
    }
    assert(attrs@.skip(i as int) =~= Seq::<AttributeInfo>::empty());
    Some(Some((code.is_some(), deprecated)))
}

/// Tells whether reading the attributes of the variant would reach a `msg`
/// attribute whose arguments are not a list of expressions, on which the
/// macro panics.
pub fn error_variant_unreadable(variant: &VariantInfo) -> (r: bool)
    ensures
        r == !error_variant_readable(*variant),
{
    peek_error_variant(variant).is_none()
}

/// Why the variants of an error enum are refused.
#[derive(Debug, Clone, Copy, PartialEq, Eq)]
pub enum ErrorEnumErrorKind {
    /// The attributes of the variant are refused.
    Variant(ErrorVariantError),
    /// The variant follows a deprecated one and declares no number.
    CodeAfterDeprecated,
}

/// The variant at `index` of an error enum is refused, for the reason `kind`.
#[derive(Debug, Clone, Copy, PartialEq, Eq)]
pub struct ErrorEnumError {
    /// The position of the variant.
    pub index: usize,
    /// The reason.
    pub kind: ErrorEnumErrorKind,
}

/// Whether the variant's attributes are read without error.
pub open spec fn read_ok(v: VariantInfo) -> bool {
    error_variant_spec(v) matches Some(Ok(_))
}

/// Whether the variant's attributes are read without error and mark it deprecated.
pub open spec fn read_deprecated(v: VariantInfo) -> bool {
    error_variant_spec(v) matches Some(Ok((_, va))) && va.deprecated
}

/// Whether the variant's attributes are read without error and declare its number.
pub open spec fn read_declares_code(v: VariantInfo) -> bool {
    error_variant_spec(v) matches Some(Ok((c, _))) && c is Some
}

/// Whether reading the variants in order reaches the one at `i`: each
/// earlier one is read without error, and one that follows a deprecated
/// variant declares its number.
pub open spec fn error_variant_reached(vs: Seq<VariantInfo>, i: int) -> bool {
    &&& forall|j: int| 0 <= j < i ==> #[trigger] read_ok(vs[j])
    &&& forall|j: int| 0 < j < i && read_deprecated(vs[j - 1]) ==> #[trigger] read_declares_code(vs[j])
}

/// Whether every variant that reading reaches can be read without panicking.
pub open spec fn error_variants_readable(vs: Seq<VariantInfo>) -> bool {
    forall|i: int| 0 <= i < vs.len() && error_variant_reached(vs, i) ==> error_variant_readable(#[trigger] vs[i])
}

/// Tells whether reading the variants of an error enum in order would reach
/// a variant whose `msg` attribute makes the macro panic.
pub fn error_variants_reach_unreadable(variants: &Vec<VariantInfo>) -> (r: bool)
    ensures
        r == !error_variants_readable(variants@),
{
    let mut last_deprecated = false;
    let mut i: usize = 0;
    while i < variants.len()
        invariant
            0 <= i <= variants@.len(),
            forall|k: int| 0 <= k < i ==> #[trigger] read_ok(variants@[k]),
            forall|k: int| 0 <= k < i ==> error_variant_readable(#[trigger] variants@[k]),
            forall|k: int| 0 < k < i && read_deprecated(variants@[k - 1]) ==> #[trigger] read_declares_code(variants@[k]),
            last_deprecated == (i > 0 && read_deprecated(variants@[i - 1])),
        decreases variants@.len() - i,
    {
        let ghost vs = variants@;
        match peek_error_variant(&variants[i]) {
            None => {
                assert(error_variant_reached(vs, i as int));
                return true;
            },
            Some(None) => {
                assert forall|k: int| 0 <= k < vs.len() && error_variant_reached(vs, k) implies error_variant_readable(#[trigger] vs[k]) by {
                    if k > i {
                        assert(read_ok(vs[i as int]));
                    }
                }
                return false;
            },
            Some(Some((has_code, deprecated))) => {
                if last_deprecated && !has_code {
                    assert forall|k: int| 0 <= k < vs.len() && error_variant_reached(vs, k) implies error_variant_readable(#[trigger] vs[k]) by {
                        if k > i {
                            assert(read_declares_code(vs[i as int]));
                        }
                    }
                    return false;
                }
                last_deprecated = deprecated;
            },
        }
        i = i + 1;
    }
    false
}

/// Reads the variants of an error enum in order; a variant that follows a
/// deprecated one must declare its number.
pub fn collect_error_variants(variants: Vec<VariantInfo>) -> (r: Result<Vec<ErrorVariant>, ErrorEnumError>)
    requires
        error_variants_readable(variants@),
    ensures
        match r {
            Ok(evs) => {
                &&& evs@.len() == variants@.len()
                &&& forall|i: int| 0 <= i < evs@.len() ==> error_variant_matches(#[trigger] evs@[i], variants@[i])
                &&& forall|i: int| 0 < i < evs@.len() && evs@[i - 1].deprecated ==> (#[trigger] evs@[i]).code is Some
            },
            Err(e) => {
                &&& e.index < variants@.len()
                &&& forall|j: int| 0 <= j < e.index ==> #[trigger] read_ok(variants@[j])
                &&& forall|j: int| 0 < j < e.index && read_deprecated(variants@[j - 1]) ==> #[trigger] read_declares_code(variants@[j])
                &&& match e.kind {
                    ErrorEnumErrorKind::Variant(err) => error_variant_spec(variants@[e.index as int])
                        == Some(Err::<(Option<u32>, VariantAttrs), ErrorVariantError>(err)),
                    ErrorEnumErrorKind::CodeAfterDeprecated => {
                        &&& e.index > 0
                        &&& read_deprecated(variants@[e.index - 1])
                        &&& read_ok(variants@[e.index as int])
                        &&& !read_declares_code(variants@[e.index as int])
                    },
                }
            },
        },
{
    let ghost orig = variants@;
    let mut rest = variants;
    let mut items: Vec<VariantInfo> = Vec::new();
    while rest.len() > 0
        invariant
            items@ + rest@.reverse() =~= orig.reverse(),
        decreases rest@.len(),
    {
        let v = rest.pop().unwrap();
        proof {
            assert(rest@.push(v).reverse() =~= seq![v] + rest@.reverse());
        }
        items.push(v);
    }
    assert(items@ =~= orig.reverse());
    let mut out: Vec<ErrorVariant> = Vec::new();
    let mut last_deprecated = false;
    while items.len() > 0
        invariant
            orig == variants@,
            out@.len() + items@.len() == orig.len(),
            forall|k: int| 0 <= k < items@.len() ==> items@[k] == orig[orig.len() - 1 - k],
            error_variants_readable(orig),
            forall|i: int| 0 <= i < out@.len() ==> error_variant_matches(#[trigger] out@[i], orig[i]),
            forall|i: int| 0 < i < out@.len() && out@[i - 1].deprecated ==> (#[trigger] out@[i]).code is Some,
            last_deprecated == (out@.len() > 0 && out@.last().deprecated),
        decreases items@.len(),
    {
        let ghost idx = out@.len() as int;
        let v = items.pop().unwrap();
        assert(v == orig[idx]);
        proof {
            assert forall|j: int| 0 <= j < idx implies #[trigger] read_ok(orig[j]) by {
                assert(error_variant_matches(out@[j], orig[j]));
            }
            assert forall|j: int| 0 < j < idx && read_deprecated(orig[j - 1])
                implies #[trigger] read_declares_code(orig[j]) by {
                assert(error_variant_matches(out@[j], orig[j]));
                assert(error_variant_matches(out@[j - 1], orig[j - 1]));
            }
            assert(error_variant_reached(orig, idx));
        }
        let result = match ErrorVariant::from(v) {
            Ok(ev) => ev,
            Err(err) => {
                assert(idx < orig.len());
                assert(error_variant_spec(orig[idx]) == Some(Err::<(Option<u32>, VariantAttrs), ErrorVariantError>(err)));
                return Err(ErrorEnumError { index: out.len(), kind: ErrorEnumErrorKind::Variant(err) });
            },
        };
        if last_deprecated && result.code.is_none() {
            proof {
                assert(error_variant_matches(out@[idx - 1], orig[idx - 1]));
            }
            return Err(ErrorEnumError { index: out.len(), kind: ErrorEnumErrorKind::CodeAfterDeprecated });
        }
        last_deprecated = result.deprecated;
        out.push(result);
    }
    Ok(out)
}

/// Why the errors cannot be numbered.
#[derive(Debug, Clone, Copy, PartialEq, Eq)]
pub enum NumberingError {
    /// The declared number is lower than the next free one.
    Unsorted,
    /// The number is already given to an earlier error.
    AlreadyUsed(u32),
}

/// The numbering of the first `n` errors, whose declared numbers are
/// `codes`: the numbers given and the next free number, or the first error
/// that cannot be numbered.
pub open spec fn error_numbers_prefix(codes: Seq<Option<u32>>, n: nat) -> Result<(Seq<int>, int), (int, NumberingError)>
    decreases n,
{
    if n == 0 {
        Ok((Seq::empty(), 0))
    } else {
        match error_numbers_prefix(codes, (n - 1) as nat) {
            Err(e) => Err(e),
            Ok((ns, next)) => {
                let c = codes[n - 1];
                if c matches Some(v) && v < next {
                    Err(((n - 1) as int, NumberingError::Unsorted))
                } else {
                    let code = match c {
                        Some(v) => v as int,
                        None => next,
                    };
                    if ns.contains(code) {
                        Err(((n - 1) as int, NumberingError::AlreadyUsed(code as u32)))
                    } else {
                        Ok((ns.push(code), code + 1))
                    }
                }
            },
        }
    }
}

/// The numbering of all the errors.
pub open spec fn error_numbers_spec(codes: Seq<Option<u32>>) -> Result<Seq<int>, (int, NumberingError)> {
    match error_numbers_prefix(codes, codes.len()) {
        Ok((ns, _)) => Ok(ns),
        Err(e) => Err(e),
    }
}

/// Whether numbering never gives `u32::MAX`, after which the next number
/// would not fit.
pub open spec fn error_numbers_fit(codes: Seq<Option<u32>>) -> bool {
    forall|n: nat| n <= codes.len() ==> (#[trigger] error_numbers_prefix(codes, n) matches Ok((_, next)) ==> next <= u32::MAX)
}

proof fn lemma_numbers_error_sticks(codes: Seq<Option<u32>>, n: nat, m: nat)
    requires
        n <= m,
        error_numbers_prefix(codes, n) is Err,
    ensures
        error_numbers_prefix(codes, m) == error_numbers_prefix(codes, n),
    decreases m - n,
{
    if n < m {
        lemma_numbers_error_sticks(codes, n, (m - 1) as nat);
    }
}

proof fn lemma_numbers_fit_after_error(codes: Seq<Option<u32>>, i: nat)
    requires
        i < codes.len(),
        forall|n: nat| n <= i ==> (#[trigger] error_numbers_prefix(codes, n) matches Ok((_, next)) ==> next <= u32::MAX),
        error_numbers_prefix(codes, i + 1) is Err,
    ensures
        error_numbers_fit(codes),
{
    assert forall|n: nat| n <= codes.len() implies (#[trigger] error_numbers_prefix(codes, n) matches Ok((_, next))
        ==> next <= u32::MAX) by {
        if n > i {
            lemma_numbers_error_sticks(codes, i + 1, n);
        }
    }
}

fn run_error_numbers(codes: &Vec<Option<u32>>) -> (r: (Result<Vec<u32>, (usize, NumberingError)>, bool))
    ensures
        r.1 <==> !error_numbers_fit(codes@),
        !r.1 ==> match r.0 {
            Ok(ns) => error_numbers_spec(codes@) == Ok::<Seq<int>, (int, NumberingError)>(ns@.map_values(|c: u32| c as int)),
            Err((i, k)) => error_numbers_spec(codes@) == Err::<Seq<int>, (int, NumberingError)>((i as int, k)),
        },
{
    let mut ns: Vec<u32> = Vec::new();
    let mut next: u64 = 0;
    let mut i: usize = 0;
    assert(ns@.map_values(|c: u32| c as int) =~= Seq::<int>::empty());
    while i < codes.len()
        invariant
            0 <= i <= codes@.len(),
            next <= u32::MAX,
            error_numbers_prefix(codes@, i as nat) == Ok::<(Seq<int>, int), (int, NumberingError)>(
                (ns@.map_values(|c: u32| c as int), next as int),
            ),
            forall|n: nat| n <= i ==> (#[trigger] error_numbers_prefix(codes@, n) matches Ok((_, nx)) ==> nx <= u32::MAX),
        decreases codes@.len() - i,
    {
        let ghost seen = ns@.map_values(|c: u32| c as int);
        let code: u64 = match codes[i] {
            Some(v) => {
                if (v as u64) < next {
                    proof {
                        assert(error_numbers_prefix(codes@, (i + 1) as nat) is Err);
                        lemma_numbers_fit_after_error(codes@, i as nat);
                        lemma_numbers_error_sticks(codes@, (i + 1) as nat, codes@.len());
                    }
                    return (Err((i, NumberingError::Unsorted)), false);
                }
                v as u64
            },
            None => next,
        };
        let mut j: usize = 0;
        #[verifier::loop_isolation(false)]
        while j < ns.len()
            invariant
                0 <= j <= ns@.len(),
                seen =~= ns@.map_values(|c: u32| c as int),
                forall|k: int| 0 <= k < j ==> seen[k] != code as int,
            decreases ns@.len() - j,
        {
            if ns[j] as u64 == code {
                assert(seen[j as int] == code as int);
                proof {
                    assert(error_numbers_prefix(codes@, (i + 1) as nat) is Err);
                    lemma_numbers_fit_after_error(codes@, i as nat);
                    lemma_numbers_error_sticks(codes@, (i + 1) as nat, codes@.len());
                }
                return (Err((i, NumberingError::AlreadyUsed(code as u32))), false);
            }
            j = j + 1;
        }
        assert(!seen.contains(code as int));
        if code >= 0xffff_ffff {
            assert(error_numbers_prefix(codes@, (i + 1) as nat) matches Ok((_, nx)) && nx > u32::MAX);
            return (Err((i, NumberingError::Unsorted)), true);
        }
        ns.push(code as u32);
        assert(ns@.map_values(|c: u32| c as int) =~= seen.push(code as int));
        next = code + 1;
        i = i + 1;
    }
    (Ok(ns), false)
}

/// Tells whether numbering the errors would give `u32::MAX`, so that the
/// number after it overflows.
pub fn error_numbers_overflow(codes: &Vec<Option<u32>>) -> (r: bool)
    ensures
        r <==> !error_numbers_fit(codes@),
{
    run_error_numbers(codes).1
}

/// Numbers the errors of an error enum, whose declared numbers are `codes`:
/// an error gets its declared number, which must not be lower than the next
/// free number, or else the next free number, starting from 0. The offset is
/// added to these numbers in the generated code.
pub fn error_numbers(codes: &Vec<Option<u32>>) -> (r: Result<Vec<u32>, (usize, NumberingError)>)
    requires
        error_numbers_fit(codes@),
    ensures
        match r {
            Ok(ns) => error_numbers_spec(codes@) == Ok::<Seq<int>, (int, NumberingError)>(ns@.map_values(|c: u32| c as int)),
            Err((i, k)) => error_numbers_spec(codes@) == Err::<Seq<int>, (int, NumberingError)>((i as int, k)),
        },
{
    run_error_numbers(codes).0
}

/// What a numbering of the first `n` errors satisfies.
pub open spec fn error_prefix_props(codes: Seq<Option<u32>>, n: nat, ns: Seq<int>, next: int) -> bool {
    &&& ns.len() == n
    &&& forall|i: int, j: int| 0 <= i < j < n ==> ns[i] < ns[j]
    &&& next == if n == 0 { 0 } else { ns[n - 1] + 1 }
    &&& forall|i: int| 0 <= i < n ==> #[trigger] ns[i] == match codes[i] {
        Some(v) => v as int,
        None => if i == 0 { 0 } else { ns[i - 1] + 1 },
    }
}

proof fn lemma_error_prefix(codes: Seq<Option<u32>>, n: nat)
    requires
        n <= codes.len(),
    ensures
        error_numbers_prefix(codes, n) matches Ok((ns, next)) ==> error_prefix_props(codes, n, ns, next),
        !(error_numbers_prefix(codes, n) matches Err((_, NumberingError::AlreadyUsed(_)))),
    decreases n,
{
    if n > 0 {
        lemma_error_prefix(codes, (n - 1) as nat);
        if let Ok((ns, next)) = error_numbers_prefix(codes, (n - 1) as nat) {
            let c = codes[n - 1];
            if !(c matches Some(v) && v < next) {
                let code = match c {
                    Some(v) => v as int,
                    None => next,
                };
                assert(!ns.contains(code)) by {
                    if ns.contains(code) {
                        let k = choose|k: int| 0 <= k < ns.len() && ns[k] == code;
                        if k < n - 2 {
                            assert(ns[k] < ns[n - 2]);
                        }
                    }
                }
                let ns2 = ns.push(code);
                assert(error_numbers_prefix(codes, n) == Ok::<(Seq<int>, int), (int, NumberingError)>((ns2, code + 1)));
                assert forall|i: int| 0 <= i < n implies #[trigger] ns2[i] == match codes[i] {
                    Some(v) => v as int,
                    None => if i == 0 { 0 } else { ns2[i - 1] + 1 },
                } by {
                    if i < n - 1 {
                        assert(ns2[i] == ns[i]);
                        if i > 0 {
                            assert(ns2[i - 1] == ns[i - 1]);
                        }
                    }
                }
            }
        }
    }
}

/// Law: the numbers of the errors are strictly increasing in variant order,
/// so no two errors share one.
pub proof fn law_error_numbers_strictly_increasing(codes: Seq<Option<u32>>)
    ensures
        error_numbers_spec(codes) matches Ok(ns) ==> {
            &&& ns.len() == codes.len()
            &&& forall|i: int, j: int| 0 <= i < j < ns.len() ==> ns[i] < ns[j]
        },
{
    lemma_error_prefix(codes, codes.len());
}

/// Law: an error gets its declared number; an error that declares none gets
/// the number after the previous error's, the first one 0.
pub proof fn law_error_numbers_follow_declarations(codes: Seq<Option<u32>>)
    ensures
        error_numbers_spec(codes) matches Ok(ns) ==> forall|i: int|
            0 <= i < codes.len() ==> #[trigger] ns[i] == match codes[i] {
                Some(v) => v as int,
                None => if i == 0 { 0 } else { ns[i - 1] + 1 },
            },
{
    lemma_error_prefix(codes, codes.len());
}

/// Law: the numbering never fails because a number is already in use.
pub proof fn law_error_numbers_never_collide(codes: Seq<Option<u32>>)
    ensures
        !(error_numbers_spec(codes) matches Err((_, NumberingError::AlreadyUsed(_)))),
{
    lemma_error_prefix(codes, codes.len());
}

/// Whether the declared code of the error at `j`, if any, is not below the
/// code that the declared error at `i` leaves for it: `j - i` more.
pub open spec fn gap_ok(codes: Seq<Option<u32>>, i: int, j: int) -> bool {
    codes[i] is Some && codes[j] is Some ==> codes[j]->0 >= codes[i]->0 + (j - i)
}

/// Whether the error at `j` declares no code, or one at least as high as
/// the number it would otherwise get: `j` when no earlier error declares a
/// code, else the declared code of an earlier error plus the distance.
pub open spec fn declared_not_low(codes: Seq<Option<u32>>, j: int) -> bool {
    codes[j] matches Some(v) ==> (v >= j && forall|i: int| 0 <= i < j ==> #[trigger] gap_ok(codes, i, j))
}

/// Whether every declared code of `codes` is at least the number its error
/// would otherwise get.
pub open spec fn declarations_sorted(codes: Seq<Option<u32>>) -> bool {
    forall|j: int| 0 <= j < codes.len() ==> #[trigger] declared_not_low(codes, j)
}

/// The next free number `next` after `n` errors is at least `n` and at
/// least each declared code plus its distance to `n`.
pub open spec fn next_bounded(codes: Seq<Option<u32>>, n: int, next: int) -> bool {
    &&& next >= n
    &&& forall|i: int| 0 <= i < n ==> #[trigger] below_next(codes, i, n, next)
}

/// The declared code at `i`, if any, plus its distance to `n`, is at most `next`.
pub open spec fn below_next(codes: Seq<Option<u32>>, i: int, n: int, next: int) -> bool {
    codes[i] is Some ==> next >= codes[i]->0 + (n - i)
}

/// The declared code at `i` plus its distance to `n` is `next`.
pub open spec fn reaches_next(codes: Seq<Option<u32>>, i: int, n: int, next: int) -> bool {
    codes[i] is Some && next == codes[i]->0 + (n - i)
}

/// The next free number is one of the bounds: `n`, or a declared code plus
/// its distance.
pub open spec fn next_attained(codes: Seq<Option<u32>>, n: int, next: int) -> bool {
    next == n || exists|i: int| 0 <= i < n && #[trigger] reaches_next(codes, i, n, next)
}

proof fn lemma_sorted_step(codes: Seq<Option<u32>>, m: int, next: int)
    requires
        0 <= m < codes.len(),
        next_bounded(codes, m, next),
        next_attained(codes, m, next),
    ensures
        (codes[m] matches Some(v) && v < next) == !declared_not_low(codes, m),
        !(codes[m] matches Some(v) && v < next) ==> {
            let code = match codes[m] {
                Some(v) => v as int,
                None => next,
            };
            next_bounded(codes, m + 1, code + 1) && next_attained(codes, m + 1, code + 1)
        },
{
    let code = match codes[m] {
        Some(v) => v as int,
        None => next,
    };
    if codes[m] matches Some(v) && v < next {
        if next != m {
            let i = choose|i: int| 0 <= i < m && #[trigger] reaches_next(codes, i, m, next);
            assert(!gap_ok(codes, i, m));
        }
    } else {
        if codes[m] is Some {
            assert forall|i: int| 0 <= i < m implies #[trigger] gap_ok(codes, i, m) by {
                assert(below_next(codes, i, m, next));
            }
            assert(reaches_next(codes, m, m + 1, code + 1));
        } else if next != m {
            let i = choose|i: int| 0 <= i < m && #[trigger] reaches_next(codes, i, m, next);
            assert(reaches_next(codes, i, m + 1, code + 1));
        }
        assert forall|i: int| 0 <= i < m + 1 implies #[trigger] below_next(codes, i, m + 1, code + 1) by {
            if i < m {
                assert(below_next(codes, i, m, next));
            }
        }
    }
}

proof fn lemma_sorted_prefix(codes: Seq<Option<u32>>, n: nat)
    requires
        n <= codes.len(),
    ensures
        (error_numbers_prefix(codes, n) is Ok) == (forall|j: int| 0 <= j < n ==> #[trigger] declared_not_low(codes, j)),
        error_numbers_prefix(codes, n) matches Ok((ns, next)) ==> next_bounded(codes, n as int, next)
            && next_attained(codes, n as int, next),
    decreases n,
{
    if n > 0 {
        let m = (n - 1) as nat;
        lemma_sorted_prefix(codes, m);
        match error_numbers_prefix(codes, m) {
            Ok((ns, next)) => {
                lemma_sorted_step(codes, m as int, next);
                let c = codes[m as int];
                if c matches Some(v) && v < next {
                    assert(error_numbers_prefix(codes, n) is Err);
                    assert(!(forall|j: int| 0 <= j < n ==> #[trigger] declared_not_low(codes, j)));
                } else {
                    let code = match c {
                        Some(v) => v as int,
                        None => next,
                    };
                    assert(!ns.contains(code)) by {
                        lemma_error_prefix(codes, n);
                    }
                    assert(error_numbers_prefix(codes, n) == Ok::<(Seq<int>, int), (int, NumberingError)>(
                        (ns.push(code), code + 1),
                    ));
                }
            },
            Err(_) => {
                let j0 = choose|j: int| 0 <= j < m && !#[trigger] declared_not_low(codes, j);
                assert(!(forall|j: int| 0 <= j < n ==> #[trigger] declared_not_low(codes, j)));
            },
        }
    }
}

proof fn lemma_error_numbers_error_at(codes: Seq<Option<u32>>, n: nat)
    requires
        n <= codes.len(),
    ensures
        error_numbers_prefix(codes, n) matches Err((i, k)) ==> {
            &&& 0 <= i < n
            &&& error_numbers_prefix(codes, i as nat) is Ok
            &&& error_numbers_prefix(codes, (i + 1) as nat) == Err::<(Seq<int>, int), (int, NumberingError)>((i, k))
        },
    decreases n,
{
    if n > 0 {
        lemma_error_numbers_error_at(codes, (n - 1) as nat);
    }
}

/// Law: the errors are numbered exactly when every declared code is at least
/// the number its error would otherwise get (0 for the first error, the
/// previous number plus one after it). A refusal names the first error whose
/// declared code is lower than that, and is always `Unsorted`.
pub proof fn law_error_numbers_sorted(codes: Seq<Option<u32>>)
    ensures
        (error_numbers_spec(codes) is Ok) == declarations_sorted(codes),
        error_numbers_spec(codes) matches Err((i, k)) ==> {
            &&& k == NumberingError::Unsorted
            &&& 0 <= i < codes.len()
            &&& codes[i] is Some
            &&& !declared_not_low(codes, i)
            &&& forall|j: int| 0 <= j < i ==> #[trigger] declared_not_low(codes, j)
        },
{
    lemma_sorted_prefix(codes, codes.len());
    lemma_error_numbers_error_at(codes, codes.len());
    if let Err((i, k)) = error_numbers_spec(codes) {
        lemma_sorted_prefix(codes, i as nat);
        lemma_sorted_prefix(codes, (i + 1) as nat);
        lemma_error_prefix(codes, (i + 1) as nat);
        assert(!declared_not_low(codes, i)) by {
            if declared_not_low(codes, i) {
                assert forall|j: int| 0 <= j < i + 1 implies #[trigger] declared_not_low(codes, j) by {}
            }
        }
    }
}

} // verus!
