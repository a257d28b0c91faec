//! The arguments of the `instruction` macro: `initial_validation`,
//! `final_validation` (each with or without a value) and `phantom`.
use vstd::prelude::*;

use crate::meta_args::{
    duplicate_check, pop_plain_spec, pop_rest, pop_spec, unknown_check, ArgFault,
    FnkMetaArgument, FnkMetaArgumentList, MetaArgError,
};
use crate::discriminants::{enum_codes_fit, enum_codes_spec, enum_discriminant_codes, law_enum_codes_strictly_increasing, CodeError,
    CodeErrorKind};
use crate::syntax::{FieldsShape, VariantInfo};

verus! {

/// A validation step of an instruction.
#[derive(Debug, Clone, Copy, PartialEq, Eq)]
pub enum Validation {
    /// The argument has no value: the instruction's own validation method.
    Implicit,
    /// The argument's value (by the argument's source) is the validation.
    Explicit(usize),
}

/// The arguments of the `instruction` macro.
pub struct InstructionArguments {
    /// The validation run before the instruction's accounts are read.
    pub initial_validation: Option<Validation>,
    /// The validation run after they are read.
    pub final_validation: Option<Validation>,
    /// Whether the instruction is a phantom one.
    pub phantom: bool,
}

/// The validation that an argument, if present, gives.
pub open spec fn validation_of(e: Option<FnkMetaArgument>) -> Option<Validation> {
    match e {
        Some(a) => Some(
            if a.value is Some {
                Validation::Explicit(a.source)
            } else {
                Validation::Implicit
            },
        ),
        None => None,
    }
}

/// What the arguments give: the initial and final validations and the
/// `phantom` flag.
pub open spec fn instruction_arguments_spec(list: Seq<FnkMetaArgument>) -> Result<
    (Option<Validation>, Option<Validation>, bool),
    ArgFault,
> {
    match duplicate_check(list) {
        Err(e) => Err(e),
        Ok(_) => match pop_spec(list, "initial_validation"@, None, true) {
            Err(e) => Err(e),
            Ok(initial) => {
                let l1 = pop_rest(list, "initial_validation"@);
                match pop_spec(l1, "final_validation"@, None, true) {
                    Err(e) => Err(e),
                    Ok(fin) => {
                        let l2 = pop_rest(l1, "final_validation"@);
                        match pop_plain_spec(l2, "phantom"@, true) {
                            Err(e) => Err(e),
                            Ok(phantom) => match unknown_check(pop_rest(l2, "phantom"@)) {
                                Err(e) => Err(e),
                                Ok(_) => Ok((validation_of(initial), validation_of(fin), phantom)),
                            },
                        }
                    },
                }
            },
        },
    }
}

fn to_validation(e: Option<FnkMetaArgument>) -> (r: Option<Validation>)
    ensures
        r == validation_of(e),
{
    match e {
        Some(a) => Some(
            if a.value.is_some() {
                Validation::Explicit(a.source)
            } else {
                Validation::Implicit
            },
        ),
        None => None,
    }
}

impl InstructionArguments {
    /// Reads the arguments `initial_validation`, `final_validation` and
    /// `phantom`, all optional; a repeated or unknown argument is refused.
    pub fn from(args: FnkMetaArgumentList) -> (r: Result<InstructionArguments, MetaArgError>)
        ensures
            match instruction_arguments_spec(args.list@) {
                Err(f) => r matches Err(e) && e@ == f,
                Ok(a) => r matches Ok(v) && (v.initial_validation, v.final_validation, v.phantom) == a,
            },
    {
        let mut args = args;
        match args.error_on_duplicated() {
            Ok(()) => {},
            Err(e) => return Err(e),
        }
        let initial_validation = match args.pop_element("initial_validation", true) {
            Ok(v) => to_validation(v),
            Err(e) => return Err(e),
        };
        let final_validation = match args.pop_element("final_validation", true) {
            Ok(v) => to_validation(v),
            Err(e) => return Err(e),
        };
        let phantom = match args.pop_plain("phantom", true) {
            Ok(v) => v,
            Err(e) => return Err(e),
        };
        match args.error_on_unknown() {
            Ok(()) => {},
            Err(e) => return Err(e),
        }
        Ok(InstructionArguments { initial_validation, final_validation, phantom })
    }
}

/// A variant of an instruction enum, as the generated code treats it.
pub struct InstructionVariantPlan {
    /// The variant's name.
    pub name: String,
    /// Whether the variant holds an instruction (one unnamed field) that is
    /// read, validated and forwarded; a unit variant holds none.
    pub holds_instruction: bool,
    /// The byte by which the variant is recognized: its discriminant code.
    pub code: u8,
}

/// The code that the `instruction` macro writes for an enum.
pub struct InstructionEnumPlan {
    /// The arguments of the macro.
    pub arguments: InstructionArguments,
    /// The variants, in order.
    pub variants: Vec<InstructionVariantPlan>,
}

/// Why the `instruction` macro refuses an enum.
#[derive(Debug, Clone, PartialEq, Eq)]
pub enum InstructionError {
    /// The arguments of the macro are refused.
    Arguments(MetaArgError),
    /// The variant (by source) is neither a unit variant nor a variant with
    /// a single unnamed field.
    VariantShape(usize),
    /// The variants cannot be numbered.
    Codes(CodeError),
}

/// Whether a variant is a unit variant or holds a single unnamed field.
pub open spec fn instruction_shape(v: VariantInfo) -> bool {
    v.fields is Unit || (v.fields matches FieldsShape::Unnamed(n) && n == 1)
}

/// Whether the variant at `i` is the first whose shape is refused.
pub open spec fn first_bad_shape(vs: Seq<VariantInfo>, i: int) -> bool {
    &&& 0 <= i < vs.len()
    &&& !instruction_shape(vs[i])
    &&& forall|k: int| 0 <= k < i ==> instruction_shape(#[trigger] vs[k])
}

/// Whether `p` describes the variants `vs`, numbered `codes`.
pub open spec fn instruction_variants_hold(p: Seq<InstructionVariantPlan>, vs: Seq<VariantInfo>, codes: Seq<int>) -> bool {
    &&& p.len() == vs.len()
    &&& forall|i: int|
        0 <= i < vs.len() ==> {
            &&& (#[trigger] p[i]).name@ == vs[i].name@
            &&& p[i].holds_instruction == (vs[i].fields is Unnamed)
            &&& p[i].code == codes[i]
        }
}

/// Whether `r` is what the `instruction` macro makes of an enum with the
/// macro arguments `args` and the variants `vs`: the arguments are read
/// first, then the shapes of the variants, then the variants are numbered
/// as `EnumDiscriminants` numbers them.
pub open spec fn instruction_enum_outcome(
    args: Seq<FnkMetaArgument>,
    vs: Seq<VariantInfo>,
    r: Result<InstructionEnumPlan, InstructionError>,
) -> bool {
    match instruction_arguments_spec(args) {
        Err(f) => r matches Err(InstructionError::Arguments(e)) && e@ == f,
        Ok(a) => if exists|i: int| first_bad_shape(vs, i) {
            r == Err::<InstructionEnumPlan, InstructionError>(
                InstructionError::VariantShape(vs[choose|i: int| first_bad_shape(vs, i)].source),
            )
        } else {
            match enum_codes_spec(vs) {
                Err((i, k)) => r matches Err(InstructionError::Codes(e)) && e.index == i && e.kind == k,
                Ok(codes) => r matches Ok(p) && (
                    p.arguments.initial_validation,
                    p.arguments.final_validation,
                    p.arguments.phantom,
                ) == a && instruction_variants_hold(p.variants@, vs, codes),
            }
        },
    }
}

/// Plans the code that the `instruction` macro writes for an enum: the
/// macro's arguments, and for each variant whether it holds an instruction
/// and the code by which it is recognized.
pub fn instruction_enum_plan(args: FnkMetaArgumentList, variants: &Vec<VariantInfo>) -> (r: Result<
    InstructionEnumPlan,
    InstructionError,
>)
    requires
        instruction_arguments_spec(args.list@) is Ok && (forall|i: int|
            0 <= i < variants@.len() ==> instruction_shape(#[trigger] variants@[i])) ==> enum_codes_fit(variants@),
    ensures
        instruction_enum_outcome(args.list@, variants@, r),
{
    let ghost list = args.list@;
    let arguments = match InstructionArguments::from(args) {
        Ok(a) => a,
        Err(e) => return Err(InstructionError::Arguments(e)),
    };
    let mut i: usize = 0;
    while i < variants.len()
        invariant
            0 <= i <= variants@.len(),
            list == args.list@,
            instruction_arguments_spec(list) matches Ok(a) && (
                arguments.initial_validation,
                arguments.final_validation,
                arguments.phantom,
            ) == a,
            forall|k: int| 0 <= k < i ==> instruction_shape(#[trigger] variants@[k]),
        decreases variants@.len() - i,
    {
        let good = match &variants[i].fields {
            FieldsShape::Unit => true,
            FieldsShape::Unnamed(n) => *n == 1,
            FieldsShape::Named(_) => false,
        };
        if !good {
            proof {
                assert(first_bad_shape(variants@, i as int));
                assert forall|j: int| #[trigger] first_bad_shape(variants@, j) implies j == i by {
                    if j < i {
                        assert(instruction_shape(variants@[j]));
                    } else if j > i {
                        assert(instruction_shape(variants@[i as int]));
                    }
                }
                assert((choose|j: int| first_bad_shape(variants@, j)) == i);
            }
            return Err(InstructionError::VariantShape(variants[i].source));
        }
        i = i + 1;
    }
    proof {
        assert forall|j: int| !first_bad_shape(variants@, j) by {
            if 0 <= j < variants@.len() {
                assert(instruction_shape(variants@[j]));
            }
        }
    }
    let codes = match enum_discriminant_codes(variants) {
        Ok(c) => c,
        Err(e) => return Err(InstructionError::Codes(e)),
    };
    proof {
        law_enum_codes_strictly_increasing(variants@);
    }
    let mut plans: Vec<InstructionVariantPlan> = Vec::new();
    let mut j: usize = 0;
    while j < variants.len()
        invariant
            0 <= j <= variants@.len(),
            codes@.len() == variants@.len(),
            plans@.len() == j,
            forall|k: int|
                0 <= k < j ==> {
                    &&& (#[trigger] plans@[k]).name@ == variants@[k].name@
                    &&& plans@[k].holds_instruction == (variants@[k].fields is Unnamed)
                    &&& plans@[k].code == codes@[k]
                },
        decreases variants@.len() - j,
    {
        let holds = match &variants[j].fields {
            FieldsShape::Unnamed(_) => true,
            _ => false,
        };
        plans.push(InstructionVariantPlan { name: variants[j].name.clone(), holds_instruction: holds, code: codes[j] });
        j = j + 1;
    }
    proof {
        let cs = codes@.map_values(|c: u8| c as int);
        assert(enum_codes_spec(variants@) == Ok::<Seq<int>, (int, CodeErrorKind)>(cs));
        assert(instruction_variants_hold(plans@, variants@, cs));
    }
    Ok(InstructionEnumPlan { arguments, variants: plans })
}

} // verus!
