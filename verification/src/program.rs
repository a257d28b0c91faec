//! The `program` macro: its arguments (`fallback`, `testable`) and the
//! methods it reads from the variants of the program enum, each with its
//! snake-case name, its `#[return_type = <type>]` and its `#[boxed]` flag.
use vstd::prelude::*;

use crate::meta_args::{
    duplicate_check, pop_plain_spec, pop_rest, pop_spec, unknown_check, ArgFault,
    FnkMetaArgument, FnkMetaArgumentList, MetaArgError,
};
use crate::naming::{pascal_to_snake, snake_case};
use crate::syntax::{path_is, path_is_ident, AttrMeta, AttributeInfo, VariantInfo};

verus! {

/// What the program runs when no method matches the instruction.
#[derive(Debug, Clone, Copy, PartialEq, Eq)]
pub enum Fallback {
    /// `fallback`: the call `fallback(program_id, accounts, data)`.
    Default,
    /// `fallback = <expr>`: the value of the argument with this source.
    Call(usize),
}

/// A method of the program, read from a variant.
pub struct ProgramMethod {
    /// The variant's name.
    pub name: String,
    /// The name in snake case.
    pub snake_name: String,
    /// The `return_type` attribute (by source) whose type the method returns.
    pub return_type: Option<usize>,
    /// Whether the method's accounts are boxed.
    pub boxed: bool,
    /// The variant's other attributes, in order.
    pub attrs: Vec<AttributeInfo>,
}

/// The program enum that the macro is applied to.
pub struct ProgramItem {
    /// The enum's name.
    pub name: String,
    /// Whether the enum declares generic parameters or a `where` clause.
    pub has_generics: bool,
    /// The variants, in order.
    pub variants: Vec<VariantInfo>,
}

/// A program read from its arguments and enum.
pub struct Program {
    /// The enum's name.
    pub name: String,
    /// The name in snake case.
    pub snake_name: String,
    /// The methods, one per variant, in order.
    pub methods: Vec<ProgramMethod>,
    /// What runs when no method matches.
    pub fallback_method_call: Option<Fallback>,
    /// Whether the program can be run in tests.
    pub testable: bool,
    /// Attributes to put on the enum.
    pub attrs: Vec<AttributeInfo>,
}

/// Why a program is refused.
#[derive(Debug, Clone, PartialEq, Eq)]
pub enum ProgramError {
    /// An argument is refused.
    Arg(MetaArgError),
    /// The enum declares generics.
    Generics,
    /// A `return_type` attribute (by source) is not `#[return_type = <type>]`.
    ReturnTypePattern(usize),
    /// A `boxed` attribute (by source) is not `#[boxed]`.
    BoxedPattern(usize),
}

/// The view of a `ProgramError`.
pub enum ProgramFault {
    /// An argument is refused.
    Arg(ArgFault),
    /// The enum declares generics.
    Generics,
    /// A `return_type` attribute (by source) is not `#[return_type = <type>]`.
    ReturnTypePattern(usize),
    /// A `boxed` attribute (by source) is not `#[boxed]`.
    BoxedPattern(usize),
}

impl View for ProgramError {
    type V = ProgramFault;

    open spec fn view(&self) -> ProgramFault {
        match self {
            ProgramError::Arg(e) => ProgramFault::Arg(e@),
            ProgramError::Generics => ProgramFault::Generics,
            ProgramError::ReturnTypePattern(s) => ProgramFault::ReturnTypePattern(*s),
            ProgramError::BoxedPattern(s) => ProgramFault::BoxedPattern(*s),
        }
    }
}

/// A method as plain values: name, snake name, return type, boxed flag and
/// the attributes that stay.
pub type MethodView = (Seq<char>, Seq<char>, Option<usize>, bool, Seq<AttributeInfo>);

impl View for ProgramMethod {
    type V = MethodView;

    open spec fn view(&self) -> MethodView {
        (self.name@, self.snake_name@, self.return_type, self.boxed, self.attrs@)
    }
}

/// The fallback that the argument `fallback`, if present, gives.
pub open spec fn fallback_of(e: Option<FnkMetaArgument>) -> Option<Fallback> {
    match e {
        Some(a) => Some(
            if a.value is Some {
                Fallback::Call(a.source)
            } else {
                Fallback::Default
            },
        ),
        None => None,
    }
}

/// What the arguments of the `program` macro give: the fallback and the
/// `testable` flag.
pub open spec fn program_args_spec(list: Seq<FnkMetaArgument>) -> Result<(Option<Fallback>, bool), ArgFault> {
    match duplicate_check(list) {
        Err(e) => Err(e),
        Ok(_) => match pop_spec(list, "fallback"@, None, true) {
            Err(e) => Err(e),
            Ok(fallback) => {
                let l1 = pop_rest(list, "fallback"@);
                match pop_plain_spec(l1, "testable"@, true) {
                    Err(e) => Err(e),
                    Ok(testable) => match unknown_check(pop_rest(l1, "testable"@)) {
                        Err(e) => Err(e),
                        Ok(_) => Ok((fallback_of(fallback), testable)),
                    },
                }
            },
        },
    }
}

/// The state of reading a variant's attributes: the return type, the boxed
/// flag and the attributes kept so far.
pub type MethodAttrs = (Option<usize>, bool, Seq<AttributeInfo>);

/// Reads one attribute of a variant.
pub open spec fn method_attr_step(a: AttributeInfo, st: MethodAttrs) -> Result<MethodAttrs, ProgramFault> {
    if path_is(a.path@, "return_type"@) {
        if a.meta matches AttrMeta::NameValue(_, is_type) && is_type {
            Ok((Some(a.source), st.1, st.2))
        } else {
            Err(ProgramFault::ReturnTypePattern(a.source))
        }
    } else if path_is(a.path@, "boxed"@) {
        if a.meta is Path {
            Ok((st.0, true, st.2))
        } else {
            Err(ProgramFault::BoxedPattern(a.source))
        }
    } else {
        Ok((st.0, st.1, st.2.push(a)))
    }
}

/// Reads the attributes of a variant, from the first.
pub open spec fn method_attrs_scan(attrs: Seq<AttributeInfo>, st: MethodAttrs) -> Result<MethodAttrs, ProgramFault>
    decreases attrs.len(),
{
    if attrs.len() == 0 {
        Ok(st)
    } else {
        match method_attr_step(attrs[0], st) {
            Err(e) => Err(e),
            Ok(next) => method_attrs_scan(attrs.drop_first(), next),
        }
    }
}

/// The method that a variant gives.
pub open spec fn method_spec(v: VariantInfo) -> Result<MethodView, ProgramFault> {
    match method_attrs_scan(v.attrs@, (None, false, Seq::empty())) {
        Err(e) => Err(e),
        Ok(st) => Ok((v.name@, pascal_to_snake(v.name@), st.0, st.1, st.2)),
    }
}

/// The methods that the variants give, or the first refusal.
pub open spec fn methods_spec(vs: Seq<VariantInfo>) -> Result<Seq<MethodView>, ProgramFault>
    decreases vs.len(),
{
    if vs.len() == 0 {
        Ok(Seq::empty())
    } else {
        match method_spec(vs[0]) {
            Err(e) => Err(e),
            Ok(m) => match methods_spec(vs.drop_first()) {
                Err(e) => Err(e),
                Ok(ms) => Ok(seq![m] + ms),
            },
        }
    }
}

/// The methods, seen through their views.
pub open spec fn methods_view(ms: Seq<ProgramMethod>) -> Seq<MethodView> {
    ms.map_values(|m: ProgramMethod| m@)
}

fn read_method(variant: VariantInfo) -> (r: Result<ProgramMethod, ProgramError>)
    ensures
        match method_spec(variant) {
            Err(f) => r matches Err(e) && e@ == f,
            Ok(m) => r matches Ok(p) && p@ == m,
        },
{
    let VariantInfo { source: _, name, native_discriminant: _, attrs: variant_attrs, fields: _ } = variant;
    let ghost orig = variant_attrs@;
    let mut rest = variant_attrs;
    let mut return_type: Option<usize> = None;
    let mut boxed = false;
    let mut attrs: Vec<AttributeInfo> = Vec::new();
    while rest.len() > 0
        invariant
            orig == variant.attrs@,
            method_attrs_scan(orig, (None, false, Seq::empty())) == method_attrs_scan(
                rest@,
                (return_type, boxed, attrs@),
            ),
        decreases rest@.len(),
    {
        let ghost before = rest@;
        let attribute = rest.remove(0);
        assert(rest@ =~= before.drop_first());
        assert(attribute == before[0]);
        if path_is_ident(&attribute.path, "return_type") {
            match &attribute.meta {
                AttrMeta::NameValue(_, true) => {},
                _ => return Err(ProgramError::ReturnTypePattern(attribute.source)),
            }
            return_type = Some(attribute.source);
        } else if path_is_ident(&attribute.path, "boxed") {
            match &attribute.meta {
                AttrMeta::Path => {},
                _ => return Err(ProgramError::BoxedPattern(attribute.source)),
            }
            boxed = true;
        } else {
            attrs.push(attribute);
        }
    }
    let snake_name = snake_case(name.as_str());
    Ok(ProgramMethod { name, snake_name, return_type, boxed, attrs })
}

impl Program {
    /// Reads a program from the macro's arguments, `fallback` (with or
    /// without a value) and `testable`, and from the program enum, which may
    /// not be generic; each variant gives a method.
    pub fn from(args: FnkMetaArgumentList, item: ProgramItem) -> (r: Result<Program, ProgramError>)
        ensures
            match program_args_spec(args.list@) {
                Err(f) => r matches Err(e) && e@ == ProgramFault::Arg(f),
                Ok(a) => if item.has_generics {
                    r matches Err(e) && e@ == ProgramFault::Generics
                } else {
                    match methods_spec(item.variants@) {
                        Err(f) => r matches Err(e) && e@ == f,
                        Ok(ms) => r matches Ok(p) && {
                            &&& p.name@ == item.name@
                            &&& p.snake_name@ == pascal_to_snake(item.name@)
                            &&& p.fallback_method_call == a.0
                            &&& p.testable == a.1
                            &&& methods_view(p.methods@) == ms
                            &&& p.attrs@.len() == 0
                        },
                    }
                },
            },
    {
        let mut args = args;
        match args.error_on_duplicated() {
            Ok(()) => {},
            Err(e) => return Err(ProgramError::Arg(e)),
        }
        let fallback_method_call = match args.pop_element("fallback", true) {
            Ok(Some(v)) => Some(
                if v.value.is_some() {
                    Fallback::Call(v.source)
                } else {
                    Fallback::Default
                },
            ),
            Ok(None) => None,
            Err(e) => return Err(ProgramError::Arg(e)),
        };
        let testable = match args.pop_plain("testable", true) {
            Ok(v) => v,
            Err(e) => return Err(ProgramError::Arg(e)),
        };
        match args.error_on_unknown() {
            Ok(()) => {},
            Err(e) => return Err(ProgramError::Arg(e)),
        }
        let ProgramItem { name, has_generics, variants } = item;
        if has_generics {
            return Err(ProgramError::Generics);
        }
        let snake_name = snake_case(name.as_str());
        let mut program = Program {
            name,
            snake_name,
            methods: Vec::new(),
            fallback_method_call,
            testable,
            attrs: Vec::new(),
        };
        match program.parse_methods(variants) {
            Ok(()) => {},
            Err(e) => return Err(e),
        }
        Ok(program)
    }

    /// Reads a method from each variant, in order, after those already read.
    fn parse_methods(&mut self, variants: Vec<VariantInfo>) -> (r: Result<(), ProgramError>)
        ensures
            final(self).name == old(self).name,
            final(self).snake_name == old(self).snake_name,
            final(self).fallback_method_call == old(self).fallback_method_call,
            final(self).testable == old(self).testable,
            final(self).attrs == old(self).attrs,
            match methods_spec(variants@) {
                Err(f) => r matches Err(e) && e@ == f,
                Ok(ms) => r is Ok && methods_view(final(self).methods@) == methods_view(old(self).methods@) + ms,
            },
    {
        let ghost orig = variants@;
        let ghost start = methods_view(self.methods@);
        let mut rest = variants;
        while rest.len() > 0
            invariant
                self.name == old(self).name,
                self.snake_name == old(self).snake_name,
                self.fallback_method_call == old(self).fallback_method_call,
                self.testable == old(self).testable,
                self.attrs == old(self).attrs,
                start == methods_view(old(self).methods@),
                orig == variants@,
                match methods_spec(orig) {
                    Err(f) => methods_spec(rest@) == Err::<Seq<MethodView>, ProgramFault>(f),
                    Ok(ms) => methods_spec(rest@) matches Ok(tail) && start + ms == methods_view(self.methods@) + tail,
                },
            decreases rest@.len(),
        {
            let ghost before = rest@;
            let variant = rest.remove(0);
            assert(rest@ =~= before.drop_first());
            assert(variant == before[0]);
            let method = match read_method(variant) {
                Ok(m) => m,
                Err(e) => {
                    assert(methods_spec(before) == Err::<Seq<MethodView>, ProgramFault>(e@));
                    return Err(e);
                },
            };
            let ghost prev = self.methods@;
            self.methods.push(method);
            proof {
                assert(methods_view(self.methods@) =~= methods_view(prev).push(method@));
                match methods_spec(orig) {
                    Ok(ms) => {
                        let tail = methods_spec(before)->Ok_0;
                        let rest_tail = methods_spec(rest@)->Ok_0;
                        assert(tail == seq![method@] + rest_tail);
                        assert(methods_view(prev) + tail =~= methods_view(self.methods@) + rest_tail);
                    },
                    Err(_) => {},
                }
            }
        }
        assert(methods_spec(rest@) == Ok::<Seq<MethodView>, ProgramFault>(Seq::empty()));
        proof {
            match methods_spec(orig) {
                Ok(ms) => {
                    assert(methods_view(self.methods@) + Seq::<MethodView>::empty() =~= methods_view(self.methods@));
                },
                Err(_) => {},
            }
        }
        Ok(())
    }
}

/// Whether an attribute is one that the `program` macro reads off a
/// variant: `return_type` or `boxed`.
pub open spec fn is_method_attr(a: AttributeInfo) -> bool {
    path_is(a.path@, "return_type"@) || path_is(a.path@, "boxed"@)
}

/// The attributes of a variant that its method keeps: all but
/// `return_type` and `boxed`, in order.
pub open spec fn kept_attrs(attrs: Seq<AttributeInfo>) -> Seq<AttributeInfo>
    decreases attrs.len(),
{
    if attrs.len() == 0 {
        Seq::empty()
    } else {
        (if is_method_attr(attrs[0]) {
            Seq::empty()
        } else {
            seq![attrs[0]]
        }) + kept_attrs(attrs.drop_first())
    }
}

/// Whether some attribute is `boxed`.
pub open spec fn has_boxed(attrs: Seq<AttributeInfo>) -> bool {
    exists|k: int| 0 <= k < attrs.len() && path_is((#[trigger] attrs[k]).path@, "boxed"@)
}

proof fn lemma_method_attrs(attrs: Seq<AttributeInfo>, st: MethodAttrs)
    ensures
        method_attrs_scan(attrs, st) matches Ok(s2) ==> {
            &&& s2.2 == st.2 + kept_attrs(attrs)
            &&& s2.1 == (st.1 || has_boxed(attrs))
        },
    decreases attrs.len(),
{
    if attrs.len() == 0 {
        assert(st.2 + Seq::<AttributeInfo>::empty() =~= st.2);
    } else {
        let rest = attrs.drop_first();
        reveal_strlit("return_type");
        reveal_strlit("boxed");
        if let Ok(next) = method_attr_step(attrs[0], st) {
            lemma_method_attrs(rest, next);
            if let Ok(s2) = method_attrs_scan(rest, next) {
                let own = if is_method_attr(attrs[0]) {
                    Seq::<AttributeInfo>::empty()
                } else {
                    seq![attrs[0]]
                };
                assert(next.2 == st.2 + own);
                assert(st.2 + own + kept_attrs(rest) =~= st.2 + (own + kept_attrs(rest)));
                if has_boxed(rest) {
                    let k = choose|k: int| 0 <= k < rest.len() && path_is((#[trigger] rest[k]).path@, "boxed"@);
                    assert(attrs[k + 1] == rest[k]);
                }
                if has_boxed(attrs) && !path_is(attrs[0].path@, "boxed"@) {
                    let k = choose|k: int| 0 <= k < attrs.len() && path_is((#[trigger] attrs[k]).path@, "boxed"@);
                    assert(rest[k - 1] == attrs[k]);
                }
                if path_is(attrs[0].path@, "return_type"@) {
                    assert("return_type"@.len() != "boxed"@.len());
                }
            }
        }
    }
}

proof fn lemma_methods(vs: Seq<VariantInfo>)
    ensures
        methods_spec(vs) matches Ok(ms) ==> {
            &&& ms.len() == vs.len()
            &&& forall|i: int| 0 <= i < vs.len() ==> method_spec(#[trigger] vs[i]) == Ok::<MethodView, ProgramFault>(ms[i])
        },
    decreases vs.len(),
{
    if vs.len() > 0 {
        lemma_methods(vs.drop_first());
        if let Ok(ms) = methods_spec(vs) {
            let tail = methods_spec(vs.drop_first())->Ok_0;
            assert forall|i: int| 0 <= i < vs.len() implies method_spec(#[trigger] vs[i]) == Ok::<MethodView, ProgramFault>(ms[i]) by {
                if i > 0 {
                    assert(vs.drop_first()[i - 1] == vs[i]);
                    assert(ms[i] == tail[i - 1]);
                }
            }
        }
    }
}

/// Law: an accepted program has one method per variant, in order: named
/// after the variant, with the variant's name in snake case, boxed exactly
/// when the variant has a `boxed` attribute, and keeping every attribute of
/// the variant but `return_type` and `boxed`.
pub proof fn law_program_methods(vs: Seq<VariantInfo>)
    ensures
        methods_spec(vs) matches Ok(ms) ==> {
            &&& ms.len() == vs.len()
            &&& forall|i: int|
                0 <= i < vs.len() ==> {
                    &&& (#[trigger] ms[i]).0 == vs[i].name@
                    &&& ms[i].1 == pascal_to_snake(vs[i].name@)
                    &&& ms[i].3 == has_boxed(vs[i].attrs@)
                    &&& ms[i].4 == kept_attrs(vs[i].attrs@)
                }
        },
{
    lemma_methods(vs);
    if let Ok(ms) = methods_spec(vs) {
        assert forall|i: int| 0 <= i < vs.len() implies {
            &&& (#[trigger] ms[i]).0 == vs[i].name@
            &&& ms[i].1 == pascal_to_snake(vs[i].name@)
            &&& ms[i].3 == has_boxed(vs[i].attrs@)
            &&& ms[i].4 == kept_attrs(vs[i].attrs@)
        } by {
            assert(method_spec(vs[i]) == Ok::<MethodView, ProgramFault>(ms[i]));
            lemma_method_attrs(vs[i].attrs@, (None, false, Seq::empty()));
            assert(Seq::<AttributeInfo>::empty() + kept_attrs(vs[i].attrs@) =~= kept_attrs(vs[i].attrs@));
        }
    }
}

/// Whether the attribute is `return_type`.
pub open spec fn is_return_type_attr(a: AttributeInfo) -> bool {
    path_is(a.path@, "return_type"@)
}

/// Whether the attribute at `j` is the last `return_type` attribute.
pub open spec fn last_return_type(attrs: Seq<AttributeInfo>, j: int) -> bool {
    &&& 0 <= j < attrs.len()
    &&& is_return_type_attr(attrs[j])
    &&& forall|k: int| j < k < attrs.len() ==> !is_return_type_attr(#[trigger] attrs[k])
}

proof fn lemma_return_type_step(a: AttributeInfo, st: MethodAttrs)
    ensures
        method_attr_step(a, st) matches Ok(next) ==> next.0 == (if is_return_type_attr(a) {
            Some(a.source)
        } else {
            st.0
        }),
{
}

proof fn lemma_return_type_untouched(attrs: Seq<AttributeInfo>, st: MethodAttrs)
    requires
        forall|k: int| 0 <= k < attrs.len() ==> !is_return_type_attr(#[trigger] attrs[k]),
    ensures
        method_attrs_scan(attrs, st) matches Ok(s) ==> s.0 == st.0,
    decreases attrs.len(),
{
    if attrs.len() > 0 {
        lemma_return_type_step(attrs[0], st);
        assert(!is_return_type_attr(attrs[0]));
        if let Ok(next) = method_attr_step(attrs[0], st) {
            assert forall|k: int| 0 <= k < attrs.drop_first().len() implies !is_return_type_attr(
                #[trigger] attrs.drop_first()[k],
            ) by {
                assert(attrs.drop_first()[k] == attrs[k + 1]);
            }
            lemma_return_type_untouched(attrs.drop_first(), next);
        }
    }
}

proof fn lemma_last_return_type(attrs: Seq<AttributeInfo>, st: MethodAttrs, j: int)
    requires
        last_return_type(attrs, j),
    ensures
        method_attrs_scan(attrs, st) matches Ok(s) ==> s.0 == Some(attrs[j].source),
    decreases attrs.len(),
{
    let rest = attrs.drop_first();
    lemma_return_type_step(attrs[0], st);
    if let Ok(next) = method_attr_step(attrs[0], st) {
        if j == 0 {
            assert forall|k: int| 0 <= k < rest.len() implies !is_return_type_attr(#[trigger] rest[k]) by {
                assert(rest[k] == attrs[k + 1]);
            }
            lemma_return_type_untouched(rest, next);
        } else {
            assert(rest[j - 1] == attrs[j]);
            assert forall|k: int| j - 1 < k < rest.len() implies !is_return_type_attr(#[trigger] rest[k]) by {
                assert(rest[k] == attrs[k + 1]);
            }
            lemma_last_return_type(rest, next, j - 1);
        }
    }
}

/// Law: the method of an accepted variant returns the type of the last
/// `return_type` attribute of the variant, wherever it stands among the
/// other attributes, and has no return type when there is none.
pub proof fn law_program_return_type(vs: Seq<VariantInfo>, i: int, j: int)
    ensures
        methods_spec(vs) matches Ok(ms) ==> (0 <= i < vs.len() ==> {
            &&& last_return_type(vs[i].attrs@, j) ==> ms[i].2 == Some(vs[i].attrs@[j].source)
            &&& (forall|k: int| 0 <= k < vs[i].attrs@.len() ==> !is_return_type_attr(#[trigger] vs[i].attrs@[k]))
                ==> ms[i].2 is None
        }),
{
    lemma_methods(vs);
    if let Ok(ms) = methods_spec(vs) {
        if 0 <= i < vs.len() {
            assert(method_spec(vs[i]) == Ok::<MethodView, ProgramFault>(ms[i]));
            let st0: MethodAttrs = (None, false, Seq::empty());
            if last_return_type(vs[i].attrs@, j) {
                lemma_last_return_type(vs[i].attrs@, st0, j);
            }
            if forall|k: int| 0 <= k < vs[i].attrs@.len() ==> !is_return_type_attr(#[trigger] vs[i].attrs@[k]) {
                lemma_return_type_untouched(vs[i].attrs@, st0);
            }
        }
    }
}

} // verus!
