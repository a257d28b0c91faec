//! Discriminants of enum variants: the `#[discriminant = n]` attribute, the
//! `#[deprecated]` marker, and the numbering that `EnumDiscriminants` gives
//! the variants of an enum.
use vstd::prelude::*;

use crate::numbers::{parse_decimal, parse_decimal_spec, NumberError};
use crate::syntax::{attr_is, path_is, path_is_ident, AttrMeta, AttributeInfo, LitValue, MetaValue, VariantInfo};

verus! {

/// Why the discriminant attribute of a variant is refused.
#[derive(Debug, Clone, Copy, PartialEq, Eq)]
pub enum DiscriminantError {
    /// The variant uses a native discriminant `= value`.
    NativeDiscriminant,
    /// The variant has more than one `discriminant` attribute.
    Duplicated,
    /// The value of the attribute is not an integer literal; the field is the attribute's source.
    ExpectedInteger(usize),
    /// The integer does not fit in the discriminant type; the fields are the attribute's source and the reason.
    InvalidNumber(usize, NumberError),
}

/// Whether an attribute is `#[deprecated]`.
pub open spec fn is_deprecated_attr(a: AttributeInfo) -> bool {
    a.meta is Path && attr_is(a, "deprecated"@)
}

/// Whether one of the attributes is `#[deprecated]`.
pub open spec fn deprecated_spec(attrs: Seq<AttributeInfo>) -> bool {
    exists|i: int| 0 <= i < attrs.len() && is_deprecated_attr(#[trigger] attrs[i])
}

/// Tells whether the attributes mark the item as deprecated.
pub fn is_deprecated(attrs: &[AttributeInfo]) -> (r: bool)
    ensures
        r == deprecated_spec(attrs@),
{
    let mut i: usize = 0;
    while i < attrs.len()
        invariant
            0 <= i <= attrs@.len(),
            forall|j: int| 0 <= j < i ==> !is_deprecated_attr(#[trigger] attrs@[j]),
        decreases attrs@.len() - i,
    {
        let a = &attrs[i];
        if matches!(a.meta, AttrMeta::Path) && path_is_ident(&a.path, "deprecated") {
            assert(is_deprecated_attr(attrs@[i as int]));
            return true;
        }
        i = i + 1;
    }
    false
}

/// Whether an attribute is a `#[discriminant = literal]` attribute.
pub open spec fn is_discriminant_attr(a: AttributeInfo) -> bool {
    a.meta matches AttrMeta::NameValue(MetaValue::Lit(_), _) && attr_is(a, "discriminant"@)
}

/// Reads the `discriminant` attributes of `attrs`, the value `found` being
/// already read, as a number no greater than `max`.
pub open spec fn discriminant_scan(attrs: Seq<AttributeInfo>, max: u64, found: Option<int>) -> Result<
    Option<int>,
    DiscriminantError,
>
    decreases attrs.len(),
{
    if attrs.len() == 0 {
        Ok(found)
    } else {
        let a = attrs[0];
        if is_discriminant_attr(a) {
            if found is Some {
                Err(DiscriminantError::Duplicated)
            } else {
                match a.meta {
                    AttrMeta::NameValue(MetaValue::Lit(LitValue::Int(d)), _) => match parse_decimal_spec(
                        d@,
                        max,
                    ) {
                        Ok(v) => discriminant_scan(attrs.drop_first(), max, Some(v)),
                        Err(e) => Err(DiscriminantError::InvalidNumber(a.source, e)),
                    },
                    _ => Err(DiscriminantError::ExpectedInteger(a.source)),
                }
            }
        } else {
            discriminant_scan(attrs.drop_first(), max, found)
        }
    }
}

/// The discriminant that a variant declares, as a number no greater than `max`.
pub open spec fn discriminant_spec(variant: VariantInfo, max: u64) -> Result<
    Option<int>,
    DiscriminantError,
> {
    if variant.native_discriminant {
        Err(DiscriminantError::NativeDiscriminant)
    } else {
        discriminant_scan(variant.attrs@, max, None)
    }
}

/// A number that the `discriminant` attributes declare lies between 0 and `max`.
pub proof fn lemma_scan_bounded(attrs: Seq<AttributeInfo>, max: u64, found: Option<int>)
    requires
        found matches Some(v) ==> 0 <= v <= max,
    ensures
        discriminant_scan(attrs, max, found) matches Ok(Some(v)) ==> 0 <= v <= max,
    decreases attrs.len(),
{
    if attrs.len() > 0 {
        let a = attrs[0];
        if is_discriminant_attr(a) {
            if found is None {
                match a.meta {
                    AttrMeta::NameValue(MetaValue::Lit(LitValue::Int(d)), _) => {
                        lemma_parse_bounded(d@, max);
                        match parse_decimal_spec(d@, max) {
                            Ok(v) => lemma_scan_bounded(attrs.drop_first(), max, Some(v)),
                            Err(_) => {},
                        }
                    },
                    _ => {},
                }
            }
        } else {
            lemma_scan_bounded(attrs.drop_first(), max, found);
        }
    }
}

proof fn lemma_parse_bounded(s: Seq<char>, max: u64)
    ensures
        parse_decimal_spec(s, max) matches Ok(v) ==> 0 <= v <= max,
{
    if s.len() > 0 {
        lemma_scan_decimal_bounded(s, s.len(), max);
    }
}

proof fn lemma_scan_decimal_bounded(s: Seq<char>, n: nat, max: u64)
    ensures
        crate::numbers::scan_decimal(s, n, max) matches Ok(v) ==> 0 <= v <= max,
    decreases n,
{
    if n > 0 {
        lemma_scan_decimal_bounded(s, (n - 1) as nat, max);
    }
}

proof fn lemma_scan_none_declared(attrs: Seq<AttributeInfo>, max: u64, found: Option<int>)
    requires
        forall|i: int| 0 <= i < attrs.len() ==> !is_discriminant_attr(#[trigger] attrs[i]),
    ensures
        discriminant_scan(attrs, max, found) == Ok::<Option<int>, DiscriminantError>(found),
    decreases attrs.len(),
{
    if attrs.len() > 0 {
        assert(!is_discriminant_attr(attrs[0]));
        assert forall|i: int| 0 <= i < attrs.drop_first().len() implies !is_discriminant_attr(#[trigger] attrs.drop_first()[i]) by {
            assert(attrs.drop_first()[i] == attrs[i + 1]);
        }
        lemma_scan_none_declared(attrs.drop_first(), max, found);
    }
}

proof fn lemma_scan_second_refused(attrs: Seq<AttributeInfo>, max: u64, found: Option<int>, i: int, j: int)
    requires
        0 <= i < j < attrs.len() || (found is Some && i == -1 && 0 <= j < attrs.len()),
        i >= 0 ==> is_discriminant_attr(attrs[i]),
        is_discriminant_attr(attrs[j]),
    ensures
        discriminant_scan(attrs, max, found) is Err,
    decreases attrs.len(),
{
    let a = attrs[0];
    let rest = attrs.drop_first();
    if is_discriminant_attr(a) {
        if found is None {
            if let AttrMeta::NameValue(MetaValue::Lit(LitValue::Int(d)), _) = a.meta {
                if let Ok(v) = parse_decimal_spec(d@, max) {
                    let (i2, j2) = if i == 0 {
                        (-1, j - 1)
                    } else {
                        (i - 1, j - 1)
                    };
                    assert(rest[j2] == attrs[j]);
                    if i2 >= 0 {
                        assert(rest[i2] == attrs[i]);
                    }
                    lemma_scan_second_refused(rest, max, Some(v), i2, j2);
                }
            }
        }
    } else {
        let i2 = if i == -1 {
            -1
        } else {
            i - 1
        };
        assert(i != 0);
        assert(j != 0);
        assert(rest[j - 1] == attrs[j]);
        if i2 >= 0 {
            assert(rest[i2] == attrs[i]);
        }
        lemma_scan_second_refused(rest, max, found, i2, j - 1);
    }
}

/// Law: a variant with a native discriminant is refused; one without any
/// `#[discriminant = ..]` attribute declares no number; and one with two
/// such attributes is refused.
pub proof fn law_discriminant_attributes(v: VariantInfo, max: u64, i: int, j: int)
    ensures
        v.native_discriminant ==> discriminant_spec(v, max) == Err::<Option<int>, DiscriminantError>(
            DiscriminantError::NativeDiscriminant,
        ),
        !v.native_discriminant && (forall|k: int| 0 <= k < v.attrs@.len() ==> !is_discriminant_attr(#[trigger] v.attrs@[k]))
            ==> discriminant_spec(v, max) == Ok::<Option<int>, DiscriminantError>(None),
        0 <= i < j < v.attrs@.len() && is_discriminant_attr(v.attrs@[i]) && is_discriminant_attr(v.attrs@[j])
            ==> discriminant_spec(v, max) is Err,
{
    if !v.native_discriminant {
        if forall|k: int| 0 <= k < v.attrs@.len() ==> !is_discriminant_attr(#[trigger] v.attrs@[k]) {
            lemma_scan_none_declared(v.attrs@, max, None);
        }
        if 0 <= i < j < v.attrs@.len() && is_discriminant_attr(v.attrs@[i]) && is_discriminant_attr(v.attrs@[j]) {
            lemma_scan_second_refused(v.attrs@, max, None, i, j);
        }
    }
}


/// Reads the discriminant declared by the `#[discriminant = n]` attribute of
/// a variant, as a number no greater than `max` (the largest value of the
/// discriminant type). Native discriminants and repeated attributes are refused.
pub fn get_discriminant(variant: &VariantInfo, max: u64) -> (r: Result<Option<u64>, DiscriminantError>)
    ensures
        match r {
            Ok(None) => discriminant_spec(*variant, max) == Ok::<Option<int>, DiscriminantError>(None),
            Ok(Some(v)) => discriminant_spec(*variant, max) == Ok::<Option<int>, DiscriminantError>(
                Some(v as int),
            ),
            Err(e) => discriminant_spec(*variant, max) == Err::<Option<int>, DiscriminantError>(e),
        },
        r matches Ok(Some(v)) ==> v <= max,
{
    if variant.native_discriminant {
        return Err(DiscriminantError::NativeDiscriminant);
    }
    let attrs = &variant.attrs;
    let mut found: Option<u64> = None;
    let mut i: usize = 0;
    assert(attrs@.skip(0) =~= attrs@);
    while i < attrs.len()
        invariant
            0 <= i <= attrs@.len(),
            attrs@ == variant.attrs@,
            !variant.native_discriminant,
            found matches Some(v) ==> v <= max,
            discriminant_scan(attrs@, max, None) == discriminant_scan(
                attrs@.skip(i as int),
                max,
                match found {
                    Some(v) => Some(v as int),
                    None => None,
                },
            ),
        decreases attrs@.len() - i,
    {
        let a = &attrs[i];
        assert(attrs@.skip(i as int)[0] == attrs@[i as int]);
        assert(attrs@.skip(i as int).drop_first() =~= attrs@.skip(i + 1));
        let is_name_value_lit = match &a.meta {
            AttrMeta::NameValue(MetaValue::Lit(_), _) => true,
            _ => false,
        };
        if is_name_value_lit && path_is_ident(&a.path, "discriminant") {
            assert(is_discriminant_attr(attrs@.skip(i as int)[0]));
            if found.is_some() {
                return Err(DiscriminantError::Duplicated);
            }
            match &a.meta {
                AttrMeta::NameValue(MetaValue::Lit(LitValue::Int(d)), _) => {
                    match parse_decimal(d.as_str(), max) {
                        Ok(v) => {
                            found = Some(v);
                        },
                        Err(e) => {
                            return Err(DiscriminantError::InvalidNumber(a.source, e));
                        },
                    }
                },
                _ => {
                    return Err(DiscriminantError::ExpectedInteger(a.source));
                },
            }
        }
        i = i + 1;
    }
    assert(attrs@.skip(i as int) =~= Seq::<AttributeInfo>::empty());
    Ok(found)
}


/// Why the variants of an enum cannot be numbered.
#[derive(Debug, Clone, Copy, PartialEq, Eq)]
pub enum CodeErrorKind {
    /// The variant's discriminant attribute is refused.
    Discriminant(DiscriminantError),
    /// The variant's discriminant is lower than the next free one.
    Unsorted,
    /// The variant follows a deprecated one and declares no discriminant;
    /// the field is the number it would have got.
    MissingAfterDeprecated(u64),
    /// The number is already given to an earlier variant.
    AlreadyUsed(u64),
}

/// The variant at `index` cannot be numbered, for the reason `kind`.
#[derive(Debug, Clone, Copy, PartialEq, Eq)]
pub struct CodeError {
    /// The position of the variant.
    pub index: usize,
    /// The reason.
    pub kind: CodeErrorKind,
}

/// The numbering of the first variants of an enum: the numbers given so far,
/// the next number, and whether the last variant is deprecated.
pub struct CodeState {
    /// The numbers given so far, in variant order.
    pub codes: Seq<int>,
    /// The number that the next variant gets when it declares none.
    pub next: int,
    /// Whether the last numbered variant is deprecated.
    pub last_deprecated: bool,
}

/// Numbers one more variant.
pub open spec fn enum_code_step(st: CodeState, v: VariantInfo) -> Result<CodeState, CodeErrorKind> {
    match discriminant_spec(v, 255) {
        Err(e) => Err(CodeErrorKind::Discriminant(e)),
        Ok(d) => if d matches Some(x) && x < st.next {
            Err(CodeErrorKind::Unsorted)
        } else if d is None && st.last_deprecated {
            Err(CodeErrorKind::MissingAfterDeprecated(st.next as u64))
        } else {
            let code = match d {
                Some(x) => x,
                None => st.next,
            };
            if st.codes.contains(code) {
                Err(CodeErrorKind::AlreadyUsed(code as u64))
            } else {
                Ok(
                    CodeState {
                        codes: st.codes.push(code),
                        next: code + 1,
                        last_deprecated: deprecated_spec(v.attrs@),
                    },
                )
            }
        },
    }
}

/// The numbering of the first `n` variants of `vs`, or the first variant
/// that cannot be numbered.
pub open spec fn enum_codes_prefix(vs: Seq<VariantInfo>, n: nat) -> Result<CodeState, (int, CodeErrorKind)>
    decreases n,
{
    if n == 0 {
        Ok(CodeState { codes: Seq::empty(), next: 0, last_deprecated: false })
    } else {
        match enum_codes_prefix(vs, (n - 1) as nat) {
            Err(e) => Err(e),
            Ok(st) => match enum_code_step(st, vs[n - 1]) {
                Err(k) => Err(((n - 1) as int, k)),
                Ok(st2) => Ok(st2),
            },
        }
    }
}

/// The numbering of all the variants of `vs`.
pub open spec fn enum_codes_spec(vs: Seq<VariantInfo>) -> Result<Seq<int>, (int, CodeErrorKind)> {
    match enum_codes_prefix(vs, vs.len()) {
        Ok(st) => Ok(st.codes),
        Err(e) => Err(e),
    }
}

/// Whether numbering `vs` never gives the number 255, after which the next
/// number would not fit in a byte.
pub open spec fn enum_codes_fit(vs: Seq<VariantInfo>) -> bool {
    forall|n: nat| n <= vs.len() ==> (#[trigger] enum_codes_prefix(vs, n) matches Ok(st) ==> st.next <= 255)
}

proof fn lemma_enum_codes_bounded(vs: Seq<VariantInfo>, n: nat)
    requires
        n <= vs.len(),
    ensures
        enum_codes_prefix(vs, n) matches Ok(st) ==> {
            &&& st.codes.len() == n
            &&& 0 <= st.next
            &&& forall|k: int| 0 <= k < n ==> 0 <= #[trigger] st.codes[k] < st.next
        },
    decreases n,
{
    if n > 0 {
        lemma_enum_codes_bounded(vs, (n - 1) as nat);
        if let Ok(st) = enum_codes_prefix(vs, (n - 1) as nat) {
            lemma_scan_bounded(vs[n - 1].attrs@, 255, None);
        }
    }
}

/// Runs the numbering with room for the number that overflows a byte; the
/// flag tells whether the overflow point was reached.
fn run_enum_codes(variants: &Vec<VariantInfo>) -> (r: (Result<Vec<u8>, CodeError>, bool))
    ensures
        r.1 <==> !enum_codes_fit(variants@),
        !r.1 ==> match r.0 {
            Ok(codes) => enum_codes_spec(variants@) == Ok::<Seq<int>, (int, CodeErrorKind)>(
                codes@.map_values(|c: u8| c as int),
            ),
            Err(e) => enum_codes_spec(variants@) == Err::<Seq<int>, (int, CodeErrorKind)>(
                (e.index as int, e.kind),
            ),
        },
{
    let mut codes: Vec<u8> = Vec::new();
    let mut next: u16 = 0;
    let mut last_deprecated = false;
    let mut i: usize = 0;
    assert(codes@.map_values(|c: u8| c as int) =~= Seq::<int>::empty());
    while i < variants.len()
        invariant
            0 <= i <= variants@.len(),
            next <= 255,
            enum_codes_prefix(variants@, i as nat) == Ok::<CodeState, (int, CodeErrorKind)>(
                CodeState {
                    codes: codes@.map_values(|c: u8| c as int),
                    next: next as int,
                    last_deprecated,
                },
            ),
            forall|n: nat| n <= i ==> (#[trigger] enum_codes_prefix(variants@, n) matches Ok(st)
                ==> st.next <= 255),
        decreases variants@.len() - i,
    {
        let v = &variants[i];
        let ghost st = CodeState {
            codes: codes@.map_values(|c: u8| c as int),
            next: next as int,
            last_deprecated,
        };
        proof {
            lemma_scan_bounded(v.attrs@, 255, None);
            lemma_prefix_error_sticks(variants@, (i + 1) as nat);
        }
        let deprecated = is_deprecated(&v.attrs);
        let d = match get_discriminant(v, 255) {
            Ok(d) => d,
            Err(e) => {
                proof {
                    lemma_fit_after_error(variants@, i as nat);
                }
                return (Err(CodeError { index: i, kind: CodeErrorKind::Discriminant(e) }), false);
            },
        };
        let code: u16 = match d {
            Some(x) => {
                if (x as u16) < next {
                    proof {
                        lemma_fit_after_error(variants@, i as nat);
                    }
                    return (Err(CodeError { index: i, kind: CodeErrorKind::Unsorted }), false);
                }
                x as u16
            },
            None => {
                if last_deprecated {
                    proof {
                        lemma_fit_after_error(variants@, i as nat);
                    }
                    return (
                        Err(
                            CodeError {
                                index: i,
                                kind: CodeErrorKind::MissingAfterDeprecated(next as u64),
                            },
                        ),
                        false,
                    );
                }
                next
            },
        };
        let mut j: usize = 0;
        #[verifier::loop_isolation(false)]
        while j < codes.len()
            invariant
                0 <= j <= codes@.len(),
                st.codes =~= codes@.map_values(|c: u8| c as int),
                forall|k: int| 0 <= k < j ==> st.codes[k] != code as int,
            decreases codes@.len() - j,
        {
            if codes[j] as u16 == code {
                assert(st.codes[j as int] == code as int);
                proof {
                    lemma_fit_after_error(variants@, i as nat);
                }
                return (
                    Err(CodeError { index: i, kind: CodeErrorKind::AlreadyUsed(code as u64) }),
                    false,
                );
            }
            j = j + 1;
        }
        assert(!st.codes.contains(code as int));
        if code >= 255 {
            assert(enum_codes_prefix(variants@, (i + 1) as nat) matches Ok(st2) && st2.next > 255);
            return (Err(CodeError { index: i, kind: CodeErrorKind::Unsorted }), true);
        }
        codes.push(code as u8);
        assert(codes@.map_values(|c: u8| c as int) =~= st.codes.push(code as int));
        next = code + 1;
        last_deprecated = deprecated;
        i = i + 1;
    }
    assert(forall|n: nat| n <= variants@.len() ==> (#[trigger] enum_codes_prefix(variants@, n) matches Ok(st)
        ==> st.next <= 255));
    (Ok(codes), false)
}

proof fn lemma_fit_after_error(vs: Seq<VariantInfo>, i: nat)
    requires
        i < vs.len(),
        forall|n: nat| n <= i ==> (#[trigger] enum_codes_prefix(vs, n) matches Ok(st) ==> st.next
            <= 255),
        enum_codes_prefix(vs, i + 1) is Err,
    ensures
        enum_codes_fit(vs),
{
    assert forall|n: nat| n <= vs.len() implies (#[trigger] enum_codes_prefix(vs, n) matches Ok(st)
        ==> st.next <= 255) by {
        if n > i {
            lemma_prefix_error_sticks_to(vs, i + 1, n);
        }
    }
}

proof fn lemma_prefix_error_sticks(vs: Seq<VariantInfo>, n: nat)
    ensures
        forall|m: nat|
            n <= m <= vs.len() && #[trigger] enum_codes_prefix(vs, n) is Err ==> enum_codes_prefix(vs, m)
                == enum_codes_prefix(vs, n),
{
    assert forall|m: nat| n <= m <= vs.len() && #[trigger] enum_codes_prefix(vs, n) is Err implies enum_codes_prefix(vs, m)
        == enum_codes_prefix(vs, n) by {
        lemma_prefix_error_sticks_to(vs, n, m);
    }
}

proof fn lemma_prefix_error_sticks_to(vs: Seq<VariantInfo>, n: nat, m: nat)
    requires
        n <= m,
        enum_codes_prefix(vs, n) is Err,
    ensures
        enum_codes_prefix(vs, m) == enum_codes_prefix(vs, n),
    decreases m - n,
{
    if n < m {
        lemma_prefix_error_sticks_to(vs, n, (m - 1) as nat);
    }
}

/// Tells whether numbering the variants would give the number 255, so that
/// the number after it overflows a byte.
pub fn enum_codes_overflow(variants: &Vec<VariantInfo>) -> (r: bool)
    ensures
        r <==> !enum_codes_fit(variants@),
{
    run_enum_codes(variants).1
}

/// Numbers the variants of an enum for `EnumDiscriminants`: a variant gets the
/// number that its `#[discriminant = n]` attribute declares, which must not be
/// lower than the next free number, or else the next free number; a variant
/// that follows a deprecated one must declare its number.
pub fn enum_discriminant_codes(variants: &Vec<VariantInfo>) -> (r: Result<Vec<u8>, CodeError>)
    requires
        enum_codes_fit(variants@),
    ensures
        match r {
            Ok(codes) => enum_codes_spec(variants@) == Ok::<Seq<int>, (int, CodeErrorKind)>(
                codes@.map_values(|c: u8| c as int),
            ),
            Err(e) => enum_codes_spec(variants@) == Err::<Seq<int>, (int, CodeErrorKind)>(
                (e.index as int, e.kind),
            ),
        },
{
    run_enum_codes(variants).0
}


/// What a numbering of the first `n` variants of `vs` satisfies.
pub open spec fn enum_prefix_props(vs: Seq<VariantInfo>, n: nat, st: CodeState) -> bool {
    &&& st.codes.len() == n
    &&& forall|i: int, j: int| 0 <= i < j < n ==> st.codes[i] < st.codes[j]
    &&& st.next == if n == 0 {
        0
    } else {
        st.codes[n - 1] + 1
    }
    &&& st.last_deprecated == (n > 0 && deprecated_spec(vs[n - 1].attrs@))
    &&& forall|i: int|
        0 <= i < n ==> match #[trigger] discriminant_spec(vs[i], 255) {
            Ok(Some(d)) => st.codes[i] == d,
            _ => st.codes[i] == if i == 0 {
                0
            } else {
                st.codes[i - 1] + 1
            },
        }
    &&& forall|i: int|
        0 < i < n && deprecated_spec(vs[i - 1].attrs@) ==> #[trigger] discriminant_spec(
            vs[i],
            255,
        ) matches Ok(Some(_))
}

proof fn lemma_enum_prefix(vs: Seq<VariantInfo>, n: nat)
    requires
        n <= vs.len(),
    ensures
        enum_codes_prefix(vs, n) matches Ok(st) ==> enum_prefix_props(vs, n, st),
        !(enum_codes_prefix(vs, n) matches Err((_, CodeErrorKind::AlreadyUsed(_)))),
    decreases n,
{
    if n > 0 {
        lemma_enum_prefix(vs, (n - 1) as nat);
        if let Ok(st) = enum_codes_prefix(vs, (n - 1) as nat) {
            let v = vs[n - 1];
            match discriminant_spec(v, 255) {
                Err(_) => {},
                Ok(d) => {
                    let code = match d {
                        Some(x) => x,
                        None => st.next,
                    };
                    if !(d matches Some(x) && x < st.next) && !(d is None && st.last_deprecated) {
                        assert(!st.codes.contains(code)) by {
                            if st.codes.contains(code) {
                                let k = choose|k: int| 0 <= k < st.codes.len() && st.codes[k] == code;
                                if k < n - 1 - 1 {
                                    assert(st.codes[k] < st.codes[n - 2]);
                                }
                            }
                        }
                        let st2 = CodeState {
                            codes: st.codes.push(code),
                            next: code + 1,
                            last_deprecated: deprecated_spec(v.attrs@),
                        };
                        assert(enum_codes_prefix(vs, n) == Ok::<CodeState, (int, CodeErrorKind)>(st2));
                        assert forall|i: int| 0 <= i < n implies match #[trigger] discriminant_spec(
                            vs[i],
                            255,
                        ) {
                            Ok(Some(d)) => st2.codes[i] == d,
                            _ => st2.codes[i] == if i == 0 {
                                0
                            } else {
                                st2.codes[i - 1] + 1
                            },
                        } by {
                            if i < n - 1 {
                                assert(st2.codes[i] == st.codes[i]);
                                if i > 0 {
                                    assert(st2.codes[i - 1] == st.codes[i - 1]);
                                }
                            }
                        }
                    }
                },
            }
        }
    }
}

/// Law: the numbers that `EnumDiscriminants` gives the variants of an enum
/// are strictly increasing in variant order, so no two variants share one.
pub proof fn law_enum_codes_strictly_increasing(vs: Seq<VariantInfo>)
    ensures
        enum_codes_spec(vs) matches Ok(codes) ==> {
            &&& codes.len() == vs.len()
            &&& forall|i: int, j: int| 0 <= i < j < codes.len() ==> codes[i] < codes[j]
        },
{
    lemma_enum_prefix(vs, vs.len());
}

/// Law: a variant gets the number its `#[discriminant = n]` attribute
/// declares; a variant that declares none gets the number after the previous
/// variant's, the first one 0.
pub proof fn law_enum_codes_follow_declarations(vs: Seq<VariantInfo>)
    ensures
        enum_codes_spec(vs) matches Ok(codes) ==> forall|i: int|
            0 <= i < vs.len() ==> match #[trigger] discriminant_spec(vs[i], 255) {
                Ok(Some(d)) => codes[i] == d,
                _ => codes[i] == if i == 0 {
                    0
                } else {
                    codes[i - 1] + 1
                },
            },
{
    lemma_enum_prefix(vs, vs.len());
}

/// Law: a variant that follows a deprecated one declares its number whenever
/// the enum is numbered.
pub proof fn law_enum_codes_declared_after_deprecated(vs: Seq<VariantInfo>)
    ensures
        enum_codes_spec(vs) is Ok ==> forall|i: int|
            0 < i < vs.len() && deprecated_spec(vs[i - 1].attrs@) ==> #[trigger] discriminant_spec(
                vs[i],
                255,
            ) matches Ok(Some(_)),
{
    lemma_enum_prefix(vs, vs.len());
}

/// Law: the numbering never fails because a number is already in use; the
/// ordering rule alone keeps the numbers apart.
pub proof fn law_enum_codes_never_collide(vs: Seq<VariantInfo>)
    ensures
        !(enum_codes_spec(vs) matches Err((_, CodeErrorKind::AlreadyUsed(_)))),
{
    lemma_enum_prefix(vs, vs.len());
}

proof fn lemma_prefix_error_at(vs: Seq<VariantInfo>, n: nat)
    requires
        n <= vs.len(),
    ensures
        enum_codes_prefix(vs, n) matches Err((i, k)) ==> {
            &&& 0 <= i < n
            &&& enum_codes_prefix(vs, i as nat) matches Ok(st) && enum_code_step(st, vs[i]) == Err::<
                CodeState,
                CodeErrorKind,
            >(k)
        },
    decreases n,
{
    if n > 0 {
        lemma_prefix_error_at(vs, (n - 1) as nat);
    }
}

/// Law: numbering the variants of an enum either gives each variant its
/// number (the declared one, or the one after the previous variant's, the
/// first 0), strictly increasing, with a declared number after each
/// deprecated variant; or it refuses the first variant that breaks a rule,
/// after numbering the ones before it: the variant's discriminant attribute
/// is refused (a native `= expr`, two attributes, or a value that is no
/// byte), its declared number is lower than the next free one, or it follows
/// a deprecated variant and declares none.
pub proof fn law_enum_codes_outcome(vs: Seq<VariantInfo>)
    ensures
        enum_codes_spec(vs) matches Ok(codes) ==> {
            &&& codes.len() == vs.len()
            &&& forall|i: int, j: int| 0 <= i < j < codes.len() ==> codes[i] < codes[j]
            &&& forall|i: int|
                0 <= i < vs.len() ==> match #[trigger] discriminant_spec(vs[i], 255) {
                    Ok(Some(d)) => codes[i] == d,
                    _ => codes[i] == if i == 0 {
                        0
                    } else {
                        codes[i - 1] + 1
                    },
                }
            &&& forall|i: int|
                0 < i < vs.len() && deprecated_spec(vs[i - 1].attrs@) ==> #[trigger] discriminant_spec(
                    vs[i],
                    255,
                ) matches Ok(Some(_))
        },
        enum_codes_spec(vs) matches Err((i, k)) ==> {
            &&& 0 <= i < vs.len()
            &&& enum_codes_prefix(vs, i as nat) matches Ok(st) && {
                &&& enum_prefix_props(vs, i as nat, st)
                &&& match k {
                    CodeErrorKind::Discriminant(e) => discriminant_spec(vs[i], 255) == Err::<
                        Option<int>,
                        DiscriminantError,
                    >(e),
                    CodeErrorKind::Unsorted => discriminant_spec(vs[i], 255) matches Ok(Some(x)) && x
                        < st.next,
                    CodeErrorKind::MissingAfterDeprecated(_) => discriminant_spec(vs[i], 255) == Ok::<
                        Option<int>,
                        DiscriminantError,
                    >(None) && i > 0 && deprecated_spec(vs[i - 1].attrs@),
                    CodeErrorKind::AlreadyUsed(_) => false,
                }
            }
        },
{
    lemma_enum_prefix(vs, vs.len());
    lemma_prefix_error_at(vs, vs.len());
    if let Err((i, k)) = enum_codes_spec(vs) {
        lemma_enum_prefix(vs, i as nat);
    }
}

/// Law: an item is deprecated exactly when some attribute, at any position,
/// is the path attribute `deprecated`; adding an attribute before or after
/// the others keeps it deprecated, and makes it so exactly when the added
/// attribute is `#[deprecated]`.
pub proof fn law_deprecated_anywhere(attrs: Seq<AttributeInfo>, a: AttributeInfo)
    ensures
        deprecated_spec(attrs) == exists|i: int|
            0 <= i < attrs.len() && (#[trigger] attrs[i]).meta is Path && path_is(attrs[i].path@, "deprecated"@),
        deprecated_spec(seq![a] + attrs) == ((a.meta is Path && path_is(a.path@, "deprecated"@)) || deprecated_spec(attrs)),
        deprecated_spec(attrs.push(a)) == (deprecated_spec(attrs) || (a.meta is Path && path_is(a.path@, "deprecated"@))),
{
    let front = seq![a] + attrs;
    let back = attrs.push(a);
    assert(front[0] == a);
    assert(back[attrs.len() as int] == a);
    if deprecated_spec(attrs) {
        let i = choose|i: int| 0 <= i < attrs.len() && is_deprecated_attr(#[trigger] attrs[i]);
        assert(front[i + 1] == attrs[i]);
        assert(back[i] == attrs[i]);
    }
    if deprecated_spec(front) {
        let i = choose|i: int| 0 <= i < front.len() && is_deprecated_attr(#[trigger] front[i]);
        if i > 0 {
            assert(front[i] == attrs[i - 1]);
        }
    }
    if deprecated_spec(back) {
        let i = choose|i: int| 0 <= i < back.len() && is_deprecated_attr(#[trigger] back[i]);
        if i < attrs.len() {
            assert(back[i] == attrs[i]);
        }
    }
}

} // verus!
