//! The names that the generators derive from the names of types, variants
//! and fields, computed with `convert_case`.
use vstd::prelude::*;

use convert_case::{Boundary, Case, Converter};
use vstd::string::StringExecFns;

use crate::numbers::{digit_value, is_decimal_digit, parse_decimal_spec, scan_decimal};
use crate::syntax::FieldsShape;

verus! {

/// The snake-case form of a Pascal-case name, as `convert_case` computes it
/// with digits kept inside words.
pub uninterp spec fn pascal_to_snake(name: Seq<char>) -> Seq<char>;

/// Converts a Pascal-case name to snake case with `convert_case`'s
/// `Converter` (from `Case::Pascal` to `Case::Snake`, without the
/// `LowerDigit` and `UpperDigit` boundaries). The contract claims only that
/// the result is a function of the name.
#[verifier::external_body]
pub(crate) fn snake_case(name: &str) -> (r: String)
    ensures
        r@ == pascal_to_snake(name@),
{
    Converter::new()
        .from_case(Case::Pascal)
        .to_case(Case::Snake)
        .remove_boundary(Boundary::LowerDigit)
        .remove_boundary(Boundary::UpperDigit)
        .convert(name)
}

/// The Pascal-case form of a snake-case name, as `convert_case` computes it.
pub uninterp spec fn snake_to_pascal(name: Seq<char>) -> Seq<char>;

/// Converts a snake-case name to Pascal case with `convert_case`'s
/// `Converter` (from `Case::Snake` to `Case::Pascal`). The contract claims
/// only that the result is a function of the name.
#[verifier::external_body]
pub(crate) fn pascal_case(name: &str) -> (r: String)
    ensures
        r@ == snake_to_pascal(name@),
{
    Converter::new().from_case(Case::Snake).to_case(Case::Pascal).convert(name)
}

/// The character of the decimal digit `d`.
pub open spec fn digit_char(d: int) -> char {
    if d == 0 {
        '0'
    } else if d == 1 {
        '1'
    } else if d == 2 {
        '2'
    } else if d == 3 {
        '3'
    } else if d == 4 {
        '4'
    } else if d == 5 {
        '5'
    } else if d == 6 {
        '6'
    } else if d == 7 {
        '7'
    } else if d == 8 {
        '8'
    } else {
        '9'
    }
}

/// The decimal digits of `n`, without leading zeros.
pub open spec fn decimal_digits(n: nat) -> Seq<char>
    decreases n,
{
    if n < 10 {
        seq![digit_char(n as int)]
    } else {
        decimal_digits(n / 10) + seq![digit_char((n % 10) as int)]
    }
}

fn digit_text(d: usize) -> (r: String)
    requires
        d < 10,
    ensures
        r@ == seq![digit_char(d as int)],
{
    let text = match d {
        0 => {
            proof { reveal_strlit("0"); }
            "0"
        },
        1 => {
            proof { reveal_strlit("1"); }
            "1"
        },
        2 => {
            proof { reveal_strlit("2"); }
            "2"
        },
        3 => {
            proof { reveal_strlit("3"); }
            "3"
        },
        4 => {
            proof { reveal_strlit("4"); }
            "4"
        },
        5 => {
            proof { reveal_strlit("5"); }
            "5"
        },
        6 => {
            proof { reveal_strlit("6"); }
            "6"
        },
        7 => {
            proof { reveal_strlit("7"); }
            "7"
        },
        8 => {
            proof { reveal_strlit("8"); }
            "8"
        },
        _ => {
            proof { reveal_strlit("9"); }
            "9"
        },
    };
    text.to_owned()
}

/// Writes `n` in decimal.
pub fn decimal_text(n: usize) -> (r: String)
    ensures
        r@ == decimal_digits(n as nat),
    decreases n,
{
    if n < 10 {
        digit_text(n)
    } else {
        let head = decimal_text(n / 10);
        let last = digit_text(n % 10);
        head.concat(last.as_str())
    }
}

proof fn lemma_digit_char(d: int)
    requires
        0 <= d < 10,
    ensures
        is_decimal_digit(digit_char(d)),
        digit_value(digit_char(d)) == d,
{
}

proof fn lemma_scan_prefix(s: Seq<char>, t: Seq<char>, k: nat, max: u64)
    requires
        k <= s.len(),
        k <= t.len(),
        forall|i: int| 0 <= i < k ==> s[i] == t[i],
    ensures
        scan_decimal(s, k, max) == scan_decimal(t, k, max),
    decreases k,
{
    if k > 0 {
        lemma_scan_prefix(s, t, (k - 1) as nat, max);
    }
}

/// Law: what `decimal_text` writes, `parse_decimal` reads back: the digits
/// of a number no greater than `max` parse as that number.
pub proof fn law_decimal_round_trip(n: nat, max: u64)
    requires
        n <= max,
    ensures
        decimal_digits(n).len() > 0,
        parse_decimal_spec(decimal_digits(n), max) == Ok::<int, crate::numbers::NumberError>(n as int),
    decreases n,
{
    if n < 10 {
        lemma_digit_char(n as int);
        let s = decimal_digits(n);
        assert(scan_decimal(s, 0, max) == Ok::<int, crate::numbers::NumberError>(0));
    } else {
        let head = decimal_digits(n / 10);
        let d = (n % 10) as int;
        law_decimal_round_trip(n / 10, max);
        lemma_digit_char(d);
        let s = decimal_digits(n);
        assert(s == head + seq![digit_char(d)]);
        lemma_scan_prefix(s, head, head.len(), max);
        assert(scan_decimal(s, head.len(), max) == Ok::<int, crate::numbers::NumberError>((n / 10) as int));
        assert((n / 10) * 10 + d == n);
        assert(s[s.len() - 1] == digit_char(d));
    }
}

/// The type whose fields get offsets: a struct by the names of its fields,
/// or an enum by its variants' names and fields.
pub enum OffsetItem {
    /// A struct with named fields.
    Struct(Vec<String>),
    /// An enum.
    Enum(Vec<(String, FieldsShape)>),
}

/// An entry of the `Fields` enum that names each field of an account type
/// and gives its offset.
pub struct FieldOffset {
    /// The entry's name.
    pub name: String,
    /// For an enum, the position of the variant that holds the field.
    pub variant: Option<usize>,
    /// The position of the field among the fields of its struct or variant.
    pub field: usize,
    /// The offset of the first field: 0 in a struct, 1 in an enum, after the
    /// variant's code.
    pub base: usize,
}

/// The view of a `FieldOffset`: name, variant, field position and base.
pub type OffsetView = (Seq<char>, Option<usize>, usize, usize);

impl View for FieldOffset {
    type V = OffsetView;

    open spec fn view(&self) -> OffsetView {
        (self.name@, self.variant, self.field, self.base)
    }
}

/// The entries for one variant: `<Variant><Field>` with the field's name in
/// Pascal case, or `<Variant><position>` for unnamed fields.
pub open spec fn variant_offsets(i: usize, name: Seq<char>, fields: FieldsShape) -> Seq<OffsetView> {
    match fields {
        FieldsShape::Named(v) => Seq::new(v@.len(), |k: int| (name + snake_to_pascal(v@[k]@), Some(i), k as usize, 1usize)),
        FieldsShape::Unnamed(n) => Seq::new(n as nat, |k: int| (name + decimal_digits(k as nat), Some(i), k as usize, 1usize)),
        FieldsShape::Unit => Seq::empty(),
    }
}

/// The entries of the variants from the first `n`, in order.
pub open spec fn enum_offsets(vs: Seq<(String, FieldsShape)>, n: nat) -> Seq<OffsetView>
    decreases n,
{
    if n == 0 {
        Seq::empty()
    } else {
        enum_offsets(vs, (n - 1) as nat) + variant_offsets((n - 1) as usize, vs[n - 1].0@, vs[n - 1].1)
    }
}

/// The entries that a type gives, in order.
pub open spec fn offsets_spec(item: OffsetItem) -> Seq<OffsetView> {
    match item {
        OffsetItem::Struct(names) => Seq::new(names@.len(), |k: int| (snake_to_pascal(names@[k]@), None::<usize>, k as usize, 0usize)),
        OffsetItem::Enum(vs) => enum_offsets(vs@, vs@.len()),
    }
}

/// Names the entries of the `Fields` enum of an account type, one per
/// field, with the position from which its offset is summed.
pub fn field_offsets(item: &OffsetItem) -> (r: Vec<FieldOffset>)
    ensures
        r@.map_values(|o: FieldOffset| o@) == offsets_spec(*item),
{
    let mut out: Vec<FieldOffset> = Vec::new();
    match item {
        OffsetItem::Struct(names) => {
            let mut k: usize = 0;
            while k < names.len()
                invariant
                    0 <= k <= names@.len(),
                    out@.len() == k,
                    forall|j: int| 0 <= j < k ==> (#[trigger] out@[j])@ == (snake_to_pascal(names@[j]@), None::<usize>, j as usize, 0usize),
                decreases names@.len() - k,
            {
                let name = pascal_case(names[k].as_str());
                out.push(FieldOffset { name, variant: None, field: k, base: 0 });
                k = k + 1;
            }
        },
        OffsetItem::Enum(vs) => {
            let mut i: usize = 0;
            while i < vs.len()
                invariant
                    0 <= i <= vs@.len(),
                    out@.map_values(|o: FieldOffset| o@) == enum_offsets(vs@, i as nat),
                decreases vs@.len() - i,
            {
                let ghost before = out@.map_values(|o: FieldOffset| o@);
                let variant_name = &vs[i].0;
                let ghost expected = variant_offsets(i, vs@[i as int].0@, vs@[i as int].1);
                match &vs[i].1 {
                    FieldsShape::Named(fields) => {
                        let mut k: usize = 0;
                        while k < fields.len()
                            invariant
                                0 <= k <= fields@.len(),
                                expected == variant_offsets(i, variant_name@, FieldsShape::Named(*fields)),
                                out@.len() == before.len() + k,
                                forall|j: int| 0 <= j < before.len() ==> (#[trigger] out@[j])@ == before[j],
                                forall|j: int| before.len() <= j < before.len() + k ==> (#[trigger] out@[j])@ == expected[j - before.len()],
                            decreases fields@.len() - k,
                        {
                            let pascal = pascal_case(fields[k].as_str());
                            let name = variant_name.clone().concat(pascal.as_str());
                            out.push(FieldOffset { name, variant: Some(i), field: k, base: 1 });
                            k = k + 1;
                        }
                    },
                    FieldsShape::Unnamed(n) => {
                        let mut k: usize = 0;
                        while k < *n
                            invariant
                                0 <= k <= *n,
                                expected == variant_offsets(i, variant_name@, FieldsShape::Unnamed(*n)),
                                out@.len() == before.len() + k,
                                forall|j: int| 0 <= j < before.len() ==> (#[trigger] out@[j])@ == before[j],
                                forall|j: int| before.len() <= j < before.len() + k ==> (#[trigger] out@[j])@ == expected[j - before.len()],
                            decreases *n - k,
                        {
                            let digits = decimal_text(k);
                            let name = variant_name.clone().concat(digits.as_str());
                            out.push(FieldOffset { name, variant: Some(i), field: k, base: 1 });
                            k = k + 1;
                        }
                    },
                    FieldsShape::Unit => {},
                }
                assert(out@.len() == before.len() + expected.len());
                assert(out@.map_values(|o: FieldOffset| o@) =~= before + expected);
                i = i + 1;
            }
        },
    }
    assert(out@.map_values(|o: FieldOffset| o@) =~= offsets_spec(*item));
    out
}

/// The camel-case form of a snake-case name, as `convert_case` computes it.
pub uninterp spec fn snake_to_camel(name: Seq<char>) -> Seq<char>;

/// Converts a snake-case name to camel case with `convert_case`'s
/// `Converter` (from `Case::Snake` to `Case::Camel`). The contract claims
/// only that the result is a function of the name.
#[verifier::external_body]
pub(crate) fn camel_case(name: &str) -> (r: String)
    ensures
        r@ == snake_to_camel(name@),
{
    Converter::new().from_case(Case::Snake).to_case(Case::Camel).convert(name)
}

/// The names under which the fields appear in the generated TypeScript
/// types: each field's name in camel case, in order.
pub fn ts_field_names(names: &Vec<String>) -> (r: Vec<String>)
    ensures
        r@.len() == names@.len(),
        forall|i: int| 0 <= i < names@.len() ==> (#[trigger] r@[i])@ == snake_to_camel(names@[i]@),
{
    let mut out: Vec<String> = Vec::new();
    let mut i: usize = 0;
    while i < names.len()
        invariant
            0 <= i <= names@.len(),
            out@.len() == i,
            forall|j: int| 0 <= j < i ==> (#[trigger] out@[j])@ == snake_to_camel(names@[j]@),
        decreases names@.len() - i,
    {
        out.push(camel_case(names[i].as_str()));
        i = i + 1;
    }
    out
}

} // verus!
