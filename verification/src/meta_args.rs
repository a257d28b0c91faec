//! The argument lists of Fankor's attribute macros, such as
//! `#[error_code(offset = 100, skip_ts_gen)]`, and the rules by which the
//! macros take their arguments out of them.
use vstd::prelude::*;

use crate::numbers::{parse_decimal, parse_decimal_spec, NumberError};
use crate::syntax::{LitValue, MetaValue, same_text};

verus! {

/// One argument `name` or `name = value`.
pub struct FnkMetaArgument {
    /// Identifies the argument for the caller.
    pub source: usize,
    /// The argument's name.
    pub name: String,
    /// The value after `=`, if any.
    pub value: Option<MetaValue>,
}

/// A comma-separated list of arguments, in source order.
pub struct FnkMetaArgumentList {
    /// The arguments not yet taken out.
    pub list: Vec<FnkMetaArgument>,
}

/// Why an argument list is refused.
#[derive(Debug, Clone, PartialEq, Eq)]
pub enum MetaArgError {
    /// A required argument, named by the field, is missing.
    Required(String),
    /// The argument (by source) must have a value.
    MustHaveValue(usize),
    /// The argument (by source) does not accept a value.
    NoValueAccepted(usize),
    /// The value of the argument (by source) is not an integer literal.
    ExpectedInteger(usize),
    /// The integer of the argument (by source) does not fit, for the given reason.
    InvalidNumber(usize, NumberError),
    /// The value of the argument (by source) is not a single identifier.
    ExpectedIdentifier(usize),
    /// The argument (by source) appears again later in the list.
    Duplicated(usize),
    /// The argument (by source) is not one that the macro knows.
    Unknown(usize),
}

/// The view of a `MetaArgError`, with the name of a missing argument as text.
pub enum ArgFault {
    /// A required argument, named by the field, is missing.
    Required(Seq<char>),
    /// The argument (by source) must have a value.
    MustHaveValue(usize),
    /// The argument (by source) does not accept a value.
    NoValueAccepted(usize),
    /// The value of the argument (by source) is not an integer literal.
    ExpectedInteger(usize),
    /// The integer of the argument (by source) does not fit, for the given reason.
    InvalidNumber(usize, NumberError),
    /// The value of the argument (by source) is not a single identifier.
    ExpectedIdentifier(usize),
    /// The argument (by source) appears again later in the list.
    Duplicated(usize),
    /// The argument (by source) is not one that the macro knows.
    Unknown(usize),
}

impl View for MetaArgError {
    type V = ArgFault;

    open spec fn view(&self) -> ArgFault {
        match self {
            MetaArgError::Required(n) => ArgFault::Required(n@),
            MetaArgError::MustHaveValue(s) => ArgFault::MustHaveValue(*s),
            MetaArgError::NoValueAccepted(s) => ArgFault::NoValueAccepted(*s),
            MetaArgError::ExpectedInteger(s) => ArgFault::ExpectedInteger(*s),
            MetaArgError::InvalidNumber(s, e) => ArgFault::InvalidNumber(*s, *e),
            MetaArgError::ExpectedIdentifier(s) => ArgFault::ExpectedIdentifier(*s),
            MetaArgError::Duplicated(s) => ArgFault::Duplicated(*s),
            MetaArgError::Unknown(s) => ArgFault::Unknown(*s),
        }
    }
}

/// A result with its error seen through its view.
pub open spec fn fault<T>(r: Result<T, MetaArgError>) -> Result<T, ArgFault> {
    match r {
        Ok(v) => Ok(v),
        Err(e) => Err(e@),
    }
}

/// A result carrying an optional text, with the text and the error seen through their views.
pub open spec fn text_fault(r: Result<Option<String>, MetaArgError>) -> Result<Option<Seq<char>>, ArgFault> {
    match r {
        Ok(Some(t)) => Ok(Some(t@)),
        Ok(None) => Ok(None),
        Err(e) => Err(e@),
    }
}

/// The position of the first argument named `name`.
pub open spec fn first_match(list: Seq<FnkMetaArgument>, name: Seq<char>) -> Option<int>
    decreases list.len(),
{
    if list.len() == 0 {
        None
    } else if list[0].name@ == name {
        Some(0)
    } else {
        match first_match(list.drop_first(), name) {
            Some(i) => Some(i + 1),
            None => None,
        }
    }
}

/// The list after taking out the first argument named `name`, if any.
pub open spec fn pop_rest(list: Seq<FnkMetaArgument>, name: Seq<char>) -> Seq<FnkMetaArgument> {
    match first_match(list, name) {
        Some(i) => list.remove(i),
        None => list,
    }
}

/// What taking the first argument named `name` out of `list` gives, where
/// `with_value` tells whether it must have a value (`Some(true)`), must not
/// (`Some(false)`), or may (`None`).
pub open spec fn pop_spec(
    list: Seq<FnkMetaArgument>,
    name: Seq<char>,
    with_value: Option<bool>,
    optional: bool,
) -> Result<Option<FnkMetaArgument>, ArgFault> {
    match first_match(list, name) {
        None => if optional {
            Ok(None)
        } else {
            Err(ArgFault::Required(name))
        },
        Some(i) => {
            let e = list[i];
            match with_value {
                Some(true) => if e.value is None {
                    Err(ArgFault::MustHaveValue(e.source))
                } else {
                    Ok(Some(e))
                },
                Some(false) => if e.value is Some {
                    Err(ArgFault::NoValueAccepted(e.source))
                } else {
                    Ok(Some(e))
                },
                None => Ok(Some(e)),
            }
        },
    }
}

/// What `pop_plain` gives.
pub open spec fn pop_plain_spec(list: Seq<FnkMetaArgument>, name: Seq<char>, optional: bool) -> Result<bool, ArgFault> {
    match pop_spec(list, name, Some(false), optional) {
        Ok(v) => Ok(v is Some),
        Err(e) => Err(e),
    }
}

/// The outcome of reading an argument's value as an integer no greater than `u32::MAX`.
pub open spec fn number_value(e: FnkMetaArgument) -> Result<u32, ArgFault> {
    match e.value {
        Some(MetaValue::Lit(LitValue::Int(d))) => match parse_decimal_spec(d@, u32::MAX as u64) {
            Ok(v) => Ok(v as u32),
            Err(ne) => Err(ArgFault::InvalidNumber(e.source, ne)),
        },
        _ => Err(ArgFault::ExpectedInteger(e.source)),
    }
}

/// What `pop_number` gives.
pub open spec fn pop_number_spec(list: Seq<FnkMetaArgument>, name: Seq<char>, optional: bool) -> Result<Option<u32>, ArgFault> {
    match pop_spec(list, name, Some(true), optional) {
        Ok(Some(e)) => match number_value(e) {
            Ok(v) => Ok(Some(v)),
            Err(f) => Err(f),
        },
        Ok(None) => Ok(None),
        Err(e) => Err(e),
    }
}

/// The outcome of reading an argument's value as a single identifier.
pub open spec fn ident_value(e: FnkMetaArgument) -> Result<Seq<char>, ArgFault> {
    match e.value {
        Some(MetaValue::Path(segments)) => if segments@.len() == 1 {
            Ok(segments@[0]@)
        } else {
            Err(ArgFault::ExpectedIdentifier(e.source))
        },
        _ => Err(ArgFault::ExpectedIdentifier(e.source)),
    }
}

/// What `pop_ident` gives.
pub open spec fn pop_ident_spec(list: Seq<FnkMetaArgument>, name: Seq<char>, optional: bool) -> Result<Option<Seq<char>>, ArgFault> {
    match pop_spec(list, name, Some(true), optional) {
        Ok(Some(e)) => match ident_value(e) {
            Ok(v) => Ok(Some(v)),
            Err(f) => Err(f),
        },
        Ok(None) => Ok(None),
        Err(e) => Err(e),
    }
}

/// Whether the argument at `i` has a namesake later in the list.
pub open spec fn has_later_namesake(list: Seq<FnkMetaArgument>, i: int) -> bool {
    exists|j: int| i < j < list.len() && #[trigger] list[j].name@ == list[i].name@
}

/// Whether `i` is the first argument that has a namesake later in the list.
pub open spec fn is_first_duplicate(list: Seq<FnkMetaArgument>, i: int) -> bool {
    &&& 0 <= i < list.len()
    &&& has_later_namesake(list, i)
    &&& forall|k: int| 0 <= k < i ==> !has_later_namesake(list, k)
}

/// What `error_on_duplicated` gives.
pub open spec fn duplicate_check(list: Seq<FnkMetaArgument>) -> Result<(), ArgFault> {
    if exists|i: int| is_first_duplicate(list, i) {
        Err(ArgFault::Duplicated(list[choose|i: int| is_first_duplicate(list, i)].source))
    } else {
        Ok(())
    }
}

/// What `error_on_unknown` gives.
pub open spec fn unknown_check(list: Seq<FnkMetaArgument>) -> Result<(), ArgFault> {
    if list.len() > 0 {
        Err(ArgFault::Unknown(list.last().source))
    } else {
        Ok(())
    }
}

fn find_first(list: &Vec<FnkMetaArgument>, name: &str) -> (r: Option<usize>)
    ensures
        match r {
            Some(i) => first_match(list@, name@) == Some(i as int) && i < list@.len(),
            None => first_match(list@, name@) is None,
        },
{
    let mut i: usize = 0;
    assert(list@.skip(0) =~= list@);
    while i < list.len()
        invariant
            0 <= i <= list@.len(),
            forall|k: int| 0 <= k < i ==> #[trigger] list@[k].name@ != name@,
            first_match(list@, name@) == match first_match(list@.skip(i as int), name@) {
                Some(k) => Some(k + i),
                None => None::<int>,
            },
        decreases list@.len() - i,
    {
        assert(list@.skip(i as int).drop_first() =~= list@.skip(i + 1));
        if same_text(&list[i].name, name) {
            return Some(i);
        }
        i = i + 1;
    }
    None
}

impl FnkMetaArgumentList {
    /// Whether no argument is left.
    pub fn is_empty(&self) -> (r: bool)
        ensures
            r == (self.list@.len() == 0),
    {
        self.list.len() == 0
    }

    /// Takes the first argument named `name` out of the list. When it is
    /// absent, the result is `None` if `optional` and an error otherwise; when
    /// it is present, `with_value` decides whether it must (`Some(true)`) or
    /// must not (`Some(false)`) have a value.
    pub fn pop(&mut self, name: &str, with_value: Option<bool>, optional: bool) -> (r: Result<
        Option<FnkMetaArgument>,
        MetaArgError,
    >)
        ensures
            final(self).list@ == pop_rest(old(self).list@, name@),
            fault(r) == pop_spec(old(self).list@, name@, with_value, optional),
    {
        let position = match find_first(&self.list, name) {
            Some(v) => v,
            None => {
                return if optional {
                    Ok(None)
                } else {
                    Err(MetaArgError::Required(name.to_owned()))
                };
            },
        };
        let element = self.list.remove(position);
        if let Some(with_value) = with_value {
            if with_value {
                if element.value.is_none() {
                    return Err(MetaArgError::MustHaveValue(element.source));
                }
            } else if element.value.is_some() {
                return Err(MetaArgError::NoValueAccepted(element.source));
            }
        }
        Ok(Some(element))
    }

    /// Takes out the argument `name`, which must not have a value, and tells
    /// whether it was there.
    pub fn pop_plain(&mut self, name: &str, optional: bool) -> (r: Result<bool, MetaArgError>)
        ensures
            final(self).list@ == pop_rest(old(self).list@, name@),
            fault(r) == pop_plain_spec(old(self).list@, name@, optional),
    {
        match self.pop(name, Some(false), optional) {
            Ok(v) => Ok(v.is_some()),
            Err(e) => Err(e),
        }
    }

    /// Takes out the argument `name`, with or without a value.
    pub fn pop_element(&mut self, name: &str, optional: bool) -> (r: Result<
        Option<FnkMetaArgument>,
        MetaArgError,
    >)
        ensures
            final(self).list@ == pop_rest(old(self).list@, name@),
            fault(r) == pop_spec(old(self).list@, name@, None, optional),
    {
        self.pop(name, None, optional)
    }

    /// Takes out the argument `name`, whose value must be an integer literal
    /// that fits in a `u32`, and returns that integer.
    pub fn pop_number(&mut self, name: &str, optional: bool) -> (r: Result<
        Option<u32>,
        MetaArgError,
    >)
        ensures
            final(self).list@ == pop_rest(old(self).list@, name@),
            fault(r) == pop_number_spec(old(self).list@, name@, optional),
    {
        let element = match self.pop(name, Some(true), optional) {
            Ok(Some(v)) => v,
            Ok(None) => return Ok(None),
            Err(e) => return Err(e),
        };
        match &element.value {
            Some(MetaValue::Lit(LitValue::Int(d))) => match parse_decimal(d.as_str(), 0xffff_ffff) {
                Ok(v) => Ok(Some(v as u32)),
                Err(ne) => Err(MetaArgError::InvalidNumber(element.source, ne)),
            },
            _ => Err(MetaArgError::ExpectedInteger(element.source)),
        }
    }

    /// Takes out the argument `name`, whose value must be a single
    /// identifier, and returns that identifier.
    pub fn pop_ident(&mut self, name: &str, optional: bool) -> (r: Result<
        Option<String>,
        MetaArgError,
    >)
        ensures
            final(self).list@ == pop_rest(old(self).list@, name@),
            text_fault(r) == pop_ident_spec(old(self).list@, name@, optional),
    {
        let element = match self.pop(name, Some(true), optional) {
            Ok(Some(v)) => v,
            Ok(None) => return Ok(None),
            Err(e) => return Err(e),
        };
        match &element.value {
            Some(MetaValue::Path(segments)) => {
                if segments.len() != 1 {
                    return Err(MetaArgError::ExpectedIdentifier(element.source));
                }
                Ok(Some(segments[0].clone()))
            },
            _ => Err(MetaArgError::ExpectedIdentifier(element.source)),
        }
    }

    /// Refuses a list in which a name appears twice, pointing at the first
    /// argument that has a namesake after it.
    pub fn error_on_duplicated(&self) -> (r: Result<(), MetaArgError>)
        ensures
            fault(r) == duplicate_check(self.list@),
            r is Ok <==> forall|i: int, j: int|
                0 <= i < j < self.list@.len() ==> self.list@[i].name@ != self.list@[j].name@,
    {
        let n = self.list.len();
        let mut i: usize = 0;
        while i < n
            invariant
                n == self.list@.len(),
                0 <= i <= n,
                forall|k: int| 0 <= k < i ==> !has_later_namesake(self.list@, k),
            decreases n - i,
        {
            let mut j: usize = i + 1;
            while j < n
                invariant
                    n == self.list@.len(),
                    i < n,
                    i + 1 <= j <= n,
                    forall|k: int| 0 <= k < i ==> !has_later_namesake(self.list@, k),
                    forall|m: int| i < m < j ==> self.list@[m].name@ != self.list@[i as int].name@,
                decreases n - j,
            {
                if self.list[i].name == self.list[j].name {
                    assert(has_later_namesake(self.list@, i as int));
                    assert(is_first_duplicate(self.list@, i as int));
                    assert forall|x: int| is_first_duplicate(self.list@, x) implies x == i by {
                        if x < i {
                        } else if x > i {
                            assert(!has_later_namesake(self.list@, i as int));
                        }
                    }
                    return Err(MetaArgError::Duplicated(self.list[i].source));
                }
                j = j + 1;
            }
            assert(!has_later_namesake(self.list@, i as int));
            i = i + 1;
        }
        assert(!exists|x: int| is_first_duplicate(self.list@, x));
        assert forall|a: int, b: int| 0 <= a < b < self.list@.len() implies self.list@[a].name@
            != self.list@[b].name@ by {
            assert(!has_later_namesake(self.list@, a));
        }
        Ok(())
    }

    /// Refuses a list that still holds an argument, pointing at the last one.
    pub fn error_on_unknown(&self) -> (r: Result<(), MetaArgError>)
        ensures
            fault(r) == unknown_check(self.list@),
    {
        if self.list.len() > 0 {
            return Err(MetaArgError::Unknown(self.list[self.list.len() - 1].source));
        }
        Ok(())
    }
}

/// Where the first argument named `name` stands: before it, no argument
/// has that name; without one, none has.
pub proof fn lemma_first_match(list: Seq<FnkMetaArgument>, name: Seq<char>)
    ensures
        match first_match(list, name) {
            Some(i) => {
                &&& 0 <= i < list.len()
                &&& list[i].name@ == name
                &&& forall|k: int| 0 <= k < i ==> (#[trigger] list[k]).name@ != name
            },
            None => forall|k: int| 0 <= k < list.len() ==> (#[trigger] list[k]).name@ != name,
        },
    decreases list.len(),
{
    if list.len() > 0 && list[0].name@ != name {
        let tail = list.drop_first();
        lemma_first_match(tail, name);
        match first_match(tail, name) {
            Some(j) => {
                assert(list[j + 1] == tail[j]);
                assert forall|k: int| 0 <= k < j + 1 implies (#[trigger] list[k]).name@ != name by {
                    if k > 0 {
                        assert(list[k] == tail[k - 1]);
                    }
                }
            },
            None => {
                assert forall|k: int| 0 <= k < list.len() implies (#[trigger] list[k]).name@ != name by {
                    if k > 0 {
                        assert(list[k] == tail[k - 1]);
                    }
                }
            },
        }
    }
}

proof fn lemma_some_first_duplicate(list: Seq<FnkMetaArgument>, i: int)
    requires
        0 <= i < list.len(),
        has_later_namesake(list, i),
    ensures
        exists|k: int| is_first_duplicate(list, k),
    decreases i,
{
    if forall|k: int| 0 <= k < i ==> !has_later_namesake(list, k) {
        assert(is_first_duplicate(list, i));
    } else {
        let k = choose|k: int| 0 <= k < i && has_later_namesake(list, k);
        lemma_some_first_duplicate(list, k);
    }
}

/// Law: in a list that `error_on_duplicated` accepts, taking an argument out
/// leaves no argument of that name behind, so a second attempt finds none.
pub proof fn law_pop_leaves_no_namesake(list: Seq<FnkMetaArgument>, name: Seq<char>)
    requires
        duplicate_check(list) is Ok,
    ensures
        first_match(pop_rest(list, name), name) is None,
{
    assert forall|i: int, j: int| 0 <= i < j < list.len() implies list[i].name@ != list[j].name@ by {
        if list[i].name@ == list[j].name@ {
            assert(has_later_namesake(list, i));
            lemma_some_first_duplicate(list, i);
        }
    }
    lemma_first_match(list, name);
    let rest = pop_rest(list, name);
    match first_match(list, name) {
        Some(m) => {
            assert forall|k: int| 0 <= k < rest.len() implies (#[trigger] rest[k]).name@ != name by {
                if k < m {
                    assert(rest[k] == list[k]);
                } else {
                    assert(rest[k] == list[k + 1]);
                }
            }
        },
        None => {},
    }
    lemma_first_match(rest, name);
}

} // verus!
