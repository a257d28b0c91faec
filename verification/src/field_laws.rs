//! Laws on how the `#[account(...)]` attributes of a field are read.
use vstd::prelude::*;
use crate::account_field::{
    AccountArg, AccountAttribute, AccountMeta, DataAndError, FieldAttrs, FieldValue, arg_of, attribute_step, attributes_scan,
    field_attrs_spec, kind_of, meta_step, metas_scan, no_attrs, FieldVariantInfo,
};
use crate::instruction_accounts::variant_outcome;
use crate::syntax::FieldsShape;

verus! {

/// The arguments of the `account` attributes among the first `n`, in the
/// order in which they are read: the last attribute first, and the arguments
/// of one attribute in their own order.
pub open spec fn account_metas(attrs: Seq<AccountAttribute>, n: nat) -> Seq<AccountMeta>
    decreases n,
{
    if n == 0 {
        Seq::empty()
    } else {
        let a = attrs[n - 1];
        let own = if a.is_account && a.args is Some {
            a.args->0@
        } else {
            Seq::empty()
        };
        own + account_metas(attrs, (n - 1) as nat)
    }
}

/// The arguments that a field may be given once.
pub open spec fn single_use(a: AccountArg) -> bool {
    match a {
        AccountArg::Owner | AccountArg::Address | AccountArg::Initialized | AccountArg::Writable
        | AccountArg::Executable | AccountArg::RentExempt | AccountArg::Signer | AccountArg::Min
        | AccountArg::Max | AccountArg::Size | AccountArg::Pda | AccountArg::PdaProgramId => true,
        _ => false,
    }
}

/// Two arguments that cannot both stand on a struct field: one that may be
/// given once, given twice; or `size` together with `min` or `max`.
pub open spec fn conflicting(a1: AccountArg, a2: AccountArg) -> bool {
    ||| a1 == a2 && single_use(a1)
    ||| a1 == AccountArg::Size && (a2 == AccountArg::Min || a2 == AccountArg::Max)
    ||| a2 == AccountArg::Size && (a1 == AccountArg::Min || a1 == AccountArg::Max)
}

/// Whether the settings read so far leave no room for the argument `a`.
pub open spec fn blocked(st: FieldAttrs, a: AccountArg) -> bool {
    match a {
        AccountArg::Owner => st.owner is Some,
        AccountArg::Address => st.address is Some,
        AccountArg::Initialized => st.initialized is Some,
        AccountArg::Writable => st.writable is Some,
        AccountArg::Executable => st.executable is Some,
        AccountArg::RentExempt => st.rent_exempt is Some,
        AccountArg::Signer => st.signer is Some,
        AccountArg::Min => st.min is Some || st.size_attr,
        AccountArg::Max => st.max is Some || st.size_attr,
        AccountArg::Size => st.size_attr || st.min is Some || st.max is Some,
        AccountArg::Pda => st.pda is Some,
        AccountArg::PdaProgramId => st.pda_program_id is Some,
        _ => false,
    }
}

/// An argument that no reading accepts with an error expression.
pub open spec fn refuses_error(m: AccountMeta) -> bool {
    &&& m.error is Some
    &&& arg_of(m.name@) != AccountArg::Pda
    &&& arg_of(m.name@) != AccountArg::MetadataPda
    &&& arg_of(m.name@) != AccountArg::Constraint
}

proof fn lemma_step_refuses_blocked(m: AccountMeta, st: FieldAttrs)
    requires
        blocked(st, arg_of(m.name@)),
    ensures
        meta_step(m, st, false) is Err,
{
}

proof fn lemma_step_keeps_blocked(m: AccountMeta, st: FieldAttrs, is_enum: bool, a: AccountArg)
    requires
        blocked(st, a),
    ensures
        meta_step(m, st, is_enum) matches Ok(st2) ==> blocked(st2, a),
{
}

proof fn lemma_step_marks(m: AccountMeta, st: FieldAttrs, a: AccountArg)
    requires
        conflicting(arg_of(m.name@), a),
    ensures
        meta_step(m, st, false) matches Ok(st2) ==> blocked(st2, a),
{
}

proof fn lemma_step_refuses_error(m: AccountMeta, st: FieldAttrs, is_enum: bool)
    requires
        refuses_error(m),
    ensures
        meta_step(m, st, is_enum) is Err,
{
}

/// Reading `a + b` reads `a`, then `b` from where `a` left off.
proof fn lemma_metas_scan_concat(a: Seq<AccountMeta>, b: Seq<AccountMeta>, st: FieldAttrs, is_enum: bool)
    ensures
        metas_scan(a + b, st, is_enum) == (match metas_scan(a, st, is_enum) {
            Ok(s1) => metas_scan(b, s1, is_enum),
            Err(e) => Err(e),
        }),
    decreases a.len(),
{
    if a.len() > 0 {
        assert((a + b).drop_first() =~= a.drop_first() + b);
        assert((a + b)[0] == a[0]);
        if let Ok(s1) = meta_step(a[0], st, is_enum) {
            lemma_metas_scan_concat(a.drop_first(), b, s1, is_enum);
        }
    } else {
        assert(a + b =~= b);
    }
}

/// An accepted reading of the attributes is the reading of their arguments.
proof fn lemma_attributes_as_metas(attrs: Seq<AccountAttribute>, n: nat, st: FieldAttrs, is_enum: bool)
    requires
        n <= attrs.len(),
        attributes_scan(attrs, n, st, is_enum) is Ok,
    ensures
        metas_scan(account_metas(attrs, n), st, is_enum) == attributes_scan(attrs, n, st, is_enum),
    decreases n,
{
    if n > 0 {
        let a = attrs[n - 1];
        let own = if a.is_account && a.args is Some {
            a.args->0@
        } else {
            Seq::<AccountMeta>::empty()
        };
        lemma_metas_scan_concat(own, account_metas(attrs, (n - 1) as nat), st, is_enum);
        if let Ok(st2) = attribute_step(a, st, is_enum) {
            lemma_attributes_as_metas(attrs, (n - 1) as nat, st2, is_enum);
        }
    }
}

/// Once an argument is blocked, a later accepted reading never meets it.
proof fn lemma_blocked_stays_out(ms: Seq<AccountMeta>, st: FieldAttrs, a: AccountArg, j: int)
    requires
        blocked(st, a),
        metas_scan(ms, st, false) is Ok,
        0 <= j < ms.len(),
    ensures
        arg_of(ms[j].name@) != a,
    decreases ms.len(),
{
    lemma_step_keeps_blocked(ms[0], st, false, a);
    if j == 0 {
        if arg_of(ms[0].name@) == a {
            lemma_step_refuses_blocked(ms[0], st);
        }
    } else {
        let st2 = meta_step(ms[0], st, false)->Ok_0;
        assert(ms.drop_first()[j - 1] == ms[j]);
        lemma_blocked_stays_out(ms.drop_first(), st2, a, j - 1);
    }
}

/// An accepted reading holds no two conflicting arguments.
proof fn lemma_metas_no_conflict(ms: Seq<AccountMeta>, st: FieldAttrs, i: int, j: int)
    requires
        metas_scan(ms, st, false) is Ok,
        0 <= i < j < ms.len(),
    ensures
        !conflicting(arg_of(ms[i].name@), arg_of(ms[j].name@)),
    decreases ms.len(),
{
    let st2 = meta_step(ms[0], st, false)->Ok_0;
    if i == 0 {
        if conflicting(arg_of(ms[0].name@), arg_of(ms[j].name@)) {
            lemma_step_marks(ms[0], st, arg_of(ms[j].name@));
            assert(ms.drop_first()[j - 1] == ms[j]);
            lemma_blocked_stays_out(ms.drop_first(), st2, arg_of(ms[j].name@), j - 1);
        }
    } else {
        assert(ms.drop_first()[i - 1] == ms[i]);
        assert(ms.drop_first()[j - 1] == ms[j]);
        lemma_metas_no_conflict(ms.drop_first(), st2, i - 1, j - 1);
    }
}

/// An accepted reading holds no argument that refuses its error expression.
proof fn lemma_metas_no_refused_error(ms: Seq<AccountMeta>, st: FieldAttrs, is_enum: bool, i: int)
    requires
        metas_scan(ms, st, is_enum) is Ok,
        0 <= i < ms.len(),
    ensures
        !refuses_error(ms[i]),
    decreases ms.len(),
{
    if i == 0 {
        if refuses_error(ms[0]) {
            lemma_step_refuses_error(ms[0], st, is_enum);
        }
    } else {
        let st2 = meta_step(ms[0], st, is_enum)->Ok_0;
        assert(ms.drop_first()[i - 1] == ms[i]);
        lemma_metas_no_refused_error(ms.drop_first(), st2, is_enum, i - 1);
    }
}

/// Law: on a struct field, two account arguments that conflict are refused,
/// wherever they stand: an argument that may be given once given twice, or
/// `size` together with `min` or `max`, in one attribute or in two.
pub proof fn law_conflicting_arguments_refused(attrs: Seq<AccountAttribute>, i: int, j: int)
    requires
        0 <= i < account_metas(attrs, attrs.len()).len(),
        0 <= j < account_metas(attrs, attrs.len()).len(),
        i != j,
        conflicting(
            arg_of(account_metas(attrs, attrs.len())[i].name@),
            arg_of(account_metas(attrs, attrs.len())[j].name@),
        ),
    ensures
        field_attrs_spec(attrs, no_attrs(), false) is Err,
{
    let ms = account_metas(attrs, attrs.len());
    if attributes_scan(attrs, attrs.len(), no_attrs(), false) is Ok {
        lemma_attributes_as_metas(attrs, attrs.len(), no_attrs(), false);
        if i < j {
            lemma_metas_no_conflict(ms, no_attrs(), i, j);
        } else {
            lemma_metas_no_conflict(ms, no_attrs(), j, i);
        }
    }
}

/// Law: an error expression (`@ err`) is accepted on `pda`, `metadata_pda`
/// and `constraint` alone; on any other account argument the field is refused.
pub proof fn law_error_expression_refused(attrs: Seq<AccountAttribute>, is_enum: bool, i: int)
    requires
        0 <= i < account_metas(attrs, attrs.len()).len(),
        refuses_error(account_metas(attrs, attrs.len())[i]),
    ensures
        field_attrs_spec(attrs, no_attrs(), is_enum) is Err,
{
    if attributes_scan(attrs, attrs.len(), no_attrs(), is_enum) is Ok {
        lemma_attributes_as_metas(attrs, attrs.len(), no_attrs(), is_enum);
        lemma_metas_no_refused_error(account_metas(attrs, attrs.len()), no_attrs(), is_enum, i);
    }
}

/// Every account attribute among the first `n` has an empty argument list.
pub open spec fn all_account_lists_empty(attrs: Seq<AccountAttribute>, n: nat) -> bool {
    forall|k: int| 0 <= k < n && (#[trigger] attrs[k]).is_account ==> (attrs[k].args matches Some(v)
        && v@.len() == 0)
}

proof fn lemma_enum_scan(attrs: Seq<AccountAttribute>, n: nat, st: FieldAttrs)
    requires
        n <= attrs.len(),
    ensures
        (attributes_scan(attrs, n, st, true) is Ok) == all_account_lists_empty(attrs, n),
        attributes_scan(attrs, n, st, true) matches Ok(s) ==> s == st,
    decreases n,
{
    if n > 0 {
        let a = attrs[n - 1];
        if a.is_account {
            if let Some(metas) = a.args {
                if metas@.len() > 0 {
                    assert(meta_step(metas@[0], st, true) is Err);
                }
            }
        }
        lemma_enum_scan(attrs, (n - 1) as nat, st);
        if !all_account_lists_empty(attrs, (n - 1) as nat) {
            let k = choose|k: int|
                0 <= k < n - 1 && (#[trigger] attrs[k]).is_account && !(attrs[k].args matches Some(v)
                    && v@.len() == 0);
            assert(!all_account_lists_empty(attrs, n) && 0 <= k < n);
        }
    }
}

/// Law: an enum variant is accepted exactly when each of its `account`
/// attributes has an empty argument list, as `#[account()]`; it is then
/// left without settings.
pub proof fn law_enum_variant_accepted(attrs: Seq<AccountAttribute>)
    ensures
        (field_attrs_spec(attrs, no_attrs(), true) is Ok) == all_account_lists_empty(attrs, attrs.len()),
        field_attrs_spec(attrs, no_attrs(), true) matches Ok(st) ==> st == no_attrs(),
{
    lemma_enum_scan(attrs, attrs.len(), no_attrs());
}

proof fn lemma_scan_same_prefix(a1: Seq<AccountAttribute>, a2: Seq<AccountAttribute>, n: nat, st: FieldAttrs, is_enum: bool)
    requires
        n <= a1.len(),
        n <= a2.len(),
        forall|k: int| 0 <= k < n ==> a1[k] == a2[k],
    ensures
        attributes_scan(a1, n, st, is_enum) == attributes_scan(a2, n, st, is_enum),
    decreases n,
{
    if n > 0 {
        assert(a1[n - 1] == a2[n - 1]);
        if let Ok(st2) = attribute_step(a1[n - 1], st, is_enum) {
            lemma_scan_same_prefix(a1, a2, (n - 1) as nat, st2, is_enum);
        }
    }
}

proof fn lemma_scan_insert(attrs: Seq<AccountAttribute>, k: int, a: AccountAttribute, n: nat, st: FieldAttrs, is_enum: bool)
    requires
        0 <= k <= n <= attrs.len(),
        !a.is_account,
    ensures
        attributes_scan(attrs.insert(k, a), n + 1, st, is_enum) == attributes_scan(attrs, n, st, is_enum),
    decreases n,
{
    let b = attrs.insert(k, a);
    if n == k {
        assert(b[k] == a);
        lemma_scan_same_prefix(b, attrs, n, st, is_enum);
    } else {
        assert(b[n as int] == attrs[n - 1]);
        if let Ok(st2) = attribute_step(attrs[n - 1], st, is_enum) {
            lemma_scan_insert(attrs, k, a, (n - 1) as nat, st2, is_enum);
        }
    }
}

/// Law: an attribute other than `account`, wherever it is inserted, changes
/// nothing in how a field's attributes are read.
pub proof fn law_other_attributes_ignored(attrs: Seq<AccountAttribute>, k: int, a: AccountAttribute, is_enum: bool)
    requires
        0 <= k <= attrs.len(),
        !a.is_account,
    ensures
        field_attrs_spec(attrs.insert(k, a), no_attrs(), is_enum) == field_attrs_spec(attrs, no_attrs(), is_enum),
{
    lemma_scan_insert(attrs, k, a, attrs.len(), no_attrs(), is_enum);
    assert(attrs.insert(k, a).len() == attrs.len() + 1);
}

/// Law: a variant of an instruction-accounts enum is read without refusal
/// only when it holds a single unnamed field; it then has the kind of that
/// field's type and no settings.
pub proof fn law_variant_is_single_account(v: FieldVariantInfo)
    ensures
        variant_outcome(v) matches Ok(ks) ==> ((v.fields matches FieldsShape::Unnamed(n) && n == 1)
            && ks.0 == kind_of(v.unnamed_types@[0]) && ks.1 == no_attrs()),
{
    law_enum_variant_accepted(v.attrs@);
}

/// The setting that a `pda`, `metadata_pda` or `constraint` argument gives:
/// its value, with its error expression.
pub open spec fn kept_with_error(m: AccountMeta) -> DataAndError {
    DataAndError { data: FieldValue::Expr(m.source), error: m.error }
}

proof fn lemma_step_keeps_pda_and_constraints(m: AccountMeta, st: FieldAttrs, is_enum: bool, c: DataAndError)
    ensures
        meta_step(m, st, is_enum) matches Ok(st2) ==> {
            &&& st.pda is Some ==> st2.pda == st.pda
            &&& st.constraints.contains(c) ==> st2.constraints.contains(c)
        },
{
    if let Ok(st2) = meta_step(m, st, is_enum) {
        if st.constraints.contains(c) {
            let k = choose|k: int| 0 <= k < st.constraints.len() && st.constraints[k] == c;
            if st2.constraints != st.constraints {
                assert(st2.constraints[k] == c);
            }
        }
    }
}

proof fn lemma_metas_keep(ms: Seq<AccountMeta>, st: FieldAttrs, is_enum: bool, c: DataAndError)
    ensures
        metas_scan(ms, st, is_enum) matches Ok(s) ==> {
            &&& st.pda is Some ==> s.pda == st.pda
            &&& st.constraints.contains(c) ==> s.constraints.contains(c)
        },
    decreases ms.len(),
{
    if ms.len() > 0 {
        lemma_step_keeps_pda_and_constraints(ms[0], st, is_enum, c);
        if let Ok(st2) = meta_step(ms[0], st, is_enum) {
            lemma_metas_keep(ms.drop_first(), st2, is_enum, c);
        }
    }
}

proof fn lemma_metas_error_kept(ms: Seq<AccountMeta>, st: FieldAttrs, is_enum: bool, j: int)
    requires
        0 <= j < ms.len(),
    ensures
        metas_scan(ms, st, is_enum) matches Ok(s) ==> {
            &&& (arg_of(ms[j].name@) == AccountArg::Pda || arg_of(ms[j].name@) == AccountArg::MetadataPda)
                ==> s.pda == Some(kept_with_error(ms[j]))
            &&& arg_of(ms[j].name@) == AccountArg::Constraint ==> s.constraints.contains(kept_with_error(ms[j]))
        },
    decreases ms.len(),
{
    let c = kept_with_error(ms[j]);
    if let Ok(st2) = meta_step(ms[0], st, is_enum) {
        if j == 0 {
            if arg_of(ms[0].name@) == AccountArg::Constraint {
                assert(st2.constraints.last() == c);
                assert(st2.constraints.contains(c));
            }
            lemma_metas_keep(ms.drop_first(), st2, is_enum, c);
        } else {
            assert(ms.drop_first()[j - 1] == ms[j]);
            lemma_metas_error_kept(ms.drop_first(), st2, is_enum, j - 1);
        }
    }
}

/// Law: on an accepted field, a `pda` or `metadata_pda` argument gives the
/// pda its value with its error expression, and each `constraint` argument
/// is kept with its own.
pub proof fn law_error_expression_kept(attrs: Seq<AccountAttribute>, is_enum: bool, j: int)
    requires
        0 <= j < account_metas(attrs, attrs.len()).len(),
    ensures
        field_attrs_spec(attrs, no_attrs(), is_enum) matches Ok(st) ==> {
            let m = account_metas(attrs, attrs.len())[j];
            &&& (arg_of(m.name@) == AccountArg::Pda || arg_of(m.name@) == AccountArg::MetadataPda) ==> st.pda
                == Some(kept_with_error(m))
            &&& arg_of(m.name@) == AccountArg::Constraint ==> st.constraints.contains(kept_with_error(m))
        },
{
    if attributes_scan(attrs, attrs.len(), no_attrs(), is_enum) is Ok {
        lemma_attributes_as_metas(attrs, attrs.len(), no_attrs(), is_enum);
        lemma_metas_error_kept(account_metas(attrs, attrs.len()), no_attrs(), is_enum, j);
    }
}

} // verus!
