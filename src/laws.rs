//! Laws of the generated output, proved over the emitters' specifications.
use vstd::prelude::*;
use crate::directives::{arg_names, cut_message, directive_kind, resolve_from, resolve_spec};
use crate::emit::{
    try_into_fn_v,
    accessors_impl_v, accessors_v, all_accessors_v, as_fn_v, brace_v, from_impl_v, froms_v,
    introspection_v, name_arm_v, name_arms_v, name_strs_v, opt_arms_v, param_names_of, paren_v,
    payload_v, render_type_v, reverse_v, reverses_v, try_as_fn_v, try_from_impl_v, uncovered,
    variant_pat_v, vname,
};
use crate::model::{comma_join, record_payload_v, type_generics_v, where_v, wf_def, ImplItem, Method, TypeDef};
use crate::records::{record_decl_v, record_decls_v, record_fields_v, record_name_v};
use crate::specialize::{
    blocks_v, family_fn_v, family_fns_v, family_name_v, guarded_v, is_family, item_out_v,
};
use crate::tokens::{fat_arrow_v, id_v, macro_stmt_v, pc_v, quoted, Delim, TokV};

verus! {

/// Whether `x` occurs in `a` as a contiguous run.
pub open spec fn occurs_in(a: Seq<TokV>, x: Seq<TokV>) -> bool {
    exists|p: int| 0 <= p && p + x.len() <= a.len() && #[trigger] a.subrange(p, p + x.len()) == x
}

proof fn lemma_occurs_self(x: Seq<TokV>)
    ensures
        occurs_in(x, x),
{
    assert(x.subrange(0, 0 + x.len() as int) =~= x);
}

proof fn lemma_occurs_trans(a: Seq<TokV>, b: Seq<TokV>, x: Seq<TokV>)
    requires
        occurs_in(a, b),
        occurs_in(b, x),
    ensures
        occurs_in(a, x),
{
    let p = choose|p: int| 0 <= p && p + b.len() <= a.len() && #[trigger] a.subrange(p, p + b.len()) == b;
    let q = choose|q: int| 0 <= q && q + x.len() <= b.len() && #[trigger] b.subrange(q, q + x.len()) == x;
    assert(a.subrange(p + q, p + q + x.len()) =~= b.subrange(q, q + x.len()));
}

proof fn lemma_occurs_concat(a: Seq<TokV>, b: Seq<TokV>, x: Seq<TokV>)
    ensures
        occurs_in(a, x) ==> occurs_in(a + b, x),
        occurs_in(b, x) ==> occurs_in(a + b, x),
{
    if occurs_in(a, x) {
        let p = choose|p: int| 0 <= p && p + x.len() <= a.len() && #[trigger] a.subrange(p, p + x.len()) == x;
        assert((a + b).subrange(p, p + x.len()) =~= a.subrange(p, p + x.len()));
    }
    if occurs_in(b, x) {
        let p = choose|p: int| 0 <= p && p + x.len() <= b.len() && #[trigger] b.subrange(p, p + x.len()) == x;
        let q = p + a.len();
        assert((a + b).subrange(q, q + x.len()) =~= b.subrange(p, p + x.len()));
    }
}

proof fn lemma_froms_hold(d: TypeDef, i: int, n: int)
    requires
        0 <= i < n,
    ensures
        occurs_in(froms_v(d, n), from_impl_v(d, i)),
    decreases n,
{
    if i == n - 1 {
        lemma_occurs_self(from_impl_v(d, i));
        lemma_occurs_concat(froms_v(d, n - 1), from_impl_v(d, i), from_impl_v(d, i));
    } else {
        lemma_froms_hold(d, i, n - 1);
        lemma_occurs_concat(froms_v(d, n - 1), from_impl_v(d, n - 1), from_impl_v(d, i));
    }
}

proof fn lemma_accessors_hold(d: TypeDef, i: int, n: int)
    requires
        0 <= i < n,
    ensures
        occurs_in(all_accessors_v(d, n), accessors_v(d, i)),
    decreases n,
{
    if i == n - 1 {
        lemma_occurs_self(accessors_v(d, i));
        lemma_occurs_concat(all_accessors_v(d, n - 1), accessors_v(d, i), accessors_v(d, i));
    } else {
        lemma_accessors_hold(d, i, n - 1);
        lemma_occurs_concat(all_accessors_v(d, n - 1), accessors_v(d, n - 1), accessors_v(d, i));
    }
}

proof fn lemma_reverses_hold(d: TypeDef, i: int, n: int)
    requires
        0 <= i < n,
    ensures
        occurs_in(reverses_v(d, n), reverse_v(d, i)),
    decreases n,
{
    if i == n - 1 {
        lemma_occurs_self(reverse_v(d, i));
        lemma_occurs_concat(reverses_v(d, n - 1), reverse_v(d, i), reverse_v(d, i));
    } else {
        lemma_reverses_hold(d, i, n - 1);
        lemma_occurs_concat(reverses_v(d, n - 1), reverse_v(d, n - 1), reverse_v(d, i));
    }
}

proof fn lemma_name_arms_hold(d: TypeDef, i: int, n: int)
    requires
        0 <= i < n,
    ensures
        occurs_in(name_arms_v(d, n), name_arm_v(d, i)),
    decreases n,
{
    if n == 1 {
        lemma_occurs_self(name_arm_v(d, i));
    } else if i == n - 1 {
        lemma_occurs_self(name_arm_v(d, i));
        lemma_occurs_concat(name_arms_v(d, n - 1) + seq![pc_v(',')], name_arm_v(d, i), name_arm_v(d, i));
    } else {
        lemma_name_arms_hold(d, i, n - 1);
        lemma_occurs_concat(name_arms_v(d, n - 1), seq![pc_v(',')], name_arm_v(d, i));
        lemma_occurs_concat(name_arms_v(d, n - 1) + seq![pc_v(',')], name_arm_v(d, n - 1), name_arm_v(d, i));
    }
}

/// The string literal of each variant's name, in declaration order.
pub open spec fn name_lits(d: TypeDef, n: int) -> Seq<Seq<TokV>> {
    Seq::new(n as nat, |k: int| seq![TokV::Lit(quoted(vname(d, k)))])
}

proof fn lemma_name_strs(d: TypeDef, n: int)
    requires
        0 <= n,
    ensures
        name_strs_v(d, n) == comma_join(name_lits(d, n)),
    decreases n,
{
    if n > 1 {
        lemma_name_strs(d, n - 1);
        assert(name_lits(d, n).drop_last() =~= name_lits(d, n - 1));
    }
}

proof fn lemma_quoted_injective(a: Seq<char>, b: Seq<char>)
    requires
        quoted(a) == quoted(b),
    ensures
        a == b,
{
    assert(quoted(a).len() == a.len() + 2);
    assert(quoted(b).len() == b.len() + 2);
    assert(a =~= quoted(a).subrange(1, a.len() + 1 as int));
    assert(b =~= quoted(b).subrange(1, b.len() + 1 as int));
}

/// A definition's output, in order, ends with the introspection and accessor impls;
/// the parts before them hold every conversion.
proof fn lemma_render_parts(d: TypeDef)
    ensures
        forall|x: Seq<TokV>| occurs_in(froms_v(d, d.variants.len() as int), x) ==> #[trigger] occurs_in(render_type_v(d), x),
        forall|x: Seq<TokV>| occurs_in(reverses_v(d, d.variants.len() as int), x) ==> #[trigger] occurs_in(render_type_v(d), x),
        occurs_in(render_type_v(d), introspection_v(d)),
        occurs_in(render_type_v(d), accessors_impl_v(d)),
{
    let n = d.variants.len() as int;
    let u = crate::emit::union_decl_v(d) + crate::records::record_decls_v(d, d.records.len() as int);
    let f = froms_v(d, n);
    let rv = reverses_v(d, n);
    let i = introspection_v(d);
    let a = accessors_impl_v(d);
    assert(render_type_v(d) == u + f + rv + i + a);
    assert forall|x: Seq<TokV>| occurs_in(f, x) implies #[trigger] occurs_in(render_type_v(d), x) by {
        lemma_occurs_concat(u, f, x);
        lemma_occurs_concat(u + f, rv, x);
        lemma_occurs_concat(u + f + rv, i, x);
        lemma_occurs_concat(u + f + rv + i, a, x);
    }
    assert forall|x: Seq<TokV>| occurs_in(rv, x) implies #[trigger] occurs_in(render_type_v(d), x) by {
        lemma_occurs_concat(u + f, rv, x);
        lemma_occurs_concat(u + f + rv, i, x);
        lemma_occurs_concat(u + f + rv + i, a, x);
    }
    lemma_occurs_self(i);
    lemma_occurs_concat(u + f + rv, i, i);
    lemma_occurs_concat(u + f + rv + i, a, i);
    lemma_occurs_self(a);
    lemma_occurs_concat(u + f + rv + i, a, a);
}

/// Round trip: for every variant, the output converts a payload into the union by
/// wrapping it in that variant (`Name::V(val)`), and the variant's fallible borrow,
/// among the accessors, gives back what that same variant holds (`Self::V(val) =>
/// Some(val)`).
pub proof fn law_round_trip(d: TypeDef, i: int)
    requires
        0 <= i < d.variants.len(),
    ensures
        occurs_in(render_type_v(d), from_impl_v(d, i)),
        occurs_in(render_type_v(d), accessors_impl_v(d)),
        occurs_in(all_accessors_v(d, d.variants.len() as int), try_as_fn_v(d, i, false)),
        opt_arms_v(d, i).subrange(0, variant_pat_v(d, i, "val"@).len() + 4 as int) == variant_pat_v(d, i, "val"@)
            + fat_arrow_v() + seq![id_v("Some"@), paren_v(seq![id_v("val"@)])],
{
    let n = d.variants.len() as int;
    lemma_froms_hold(d, i, n);
    lemma_render_parts(d);
    lemma_accessors_hold(d, i, n);
    lemma_try_as_in_accessors(d, i);
    lemma_occurs_trans(all_accessors_v(d, n), accessors_v(d, i), try_as_fn_v(d, i, false));
    lemma_opt_arms_start(d, i);
}

proof fn lemma_opt_arms_start(d: TypeDef, i: int)
    ensures
        opt_arms_v(d, i).subrange(0, variant_pat_v(d, i, "val"@).len() + 4 as int) == variant_pat_v(d, i, "val"@)
            + fat_arrow_v() + seq![id_v("Some"@), paren_v(seq![id_v("val"@)])],
{
    assert(opt_arms_v(d, i).subrange(0, variant_pat_v(d, i, "val"@).len() + 4 as int) =~= variant_pat_v(d, i, "val"@)
            + fat_arrow_v() + seq![id_v("Some"@), paren_v(seq![id_v("val"@)])]);
}

proof fn lemma_try_as_in_accessors(d: TypeDef, i: int)
    ensures
        occurs_in(accessors_v(d, i), try_as_fn_v(d, i, false)),
{
    let t = try_as_fn_v(d, i, false);
    let head = crate::emit::is_fn_v(d, i);
    let tail = as_fn_v(d, i) + try_as_fn_v(d, i, true) + crate::emit::as_mut_fn_v(d, i)
        + crate::emit::try_into_fn_v(d, i) + crate::emit::into_fn_v(d, i);
    assert(accessors_v(d, i) =~= head + t + tail);
    lemma_occurs_self(t);
    lemma_occurs_concat(head, t, t);
    lemma_occurs_concat(head + t, tail, t);
}

/// Wrong variant: in a well-formed definition, the fallible borrow of variant `i`
/// matches only variant `i`, whose name differs from every other variant's, and yields
/// `None` for any other; the panicking borrow of variant `i` calls it and panics on
/// `None`; the fallible consuming accessor of variant `i` hands any other value back
/// unchanged (`_ => Err(self)`).
pub proof fn law_wrong_variant(d: TypeDef, i: int, j: int)
    requires
        wf_def(d),
        0 <= i < d.variants.len(),
        0 <= j < d.variants.len(),
        i != j,
    ensures
        vname(d, i) != vname(d, j),
        opt_arms_v(d, i) == variant_pat_v(d, i, "val"@) + fat_arrow_v() + seq![
            id_v("Some"@),
            paren_v(seq![id_v("val"@)]),
            pc_v(','),
            id_v("_"@),
        ] + fat_arrow_v() + seq![id_v("None"@)],
        occurs_in(accessors_v(d, i), as_fn_v(d, i)),
        occurs_in(accessors_v(d, i), try_into_fn_v(d, i)),
        try_into_fn_v(d, i).last() == brace_v(
            seq![
                id_v("match"@),
                id_v("self"@),
                brace_v(
                    variant_pat_v(d, i, "val"@) + fat_arrow_v() + seq![
                        id_v("Ok"@),
                        paren_v(seq![id_v("val"@)]),
                        pc_v(','),
                        id_v("_"@),
                    ] + fat_arrow_v() + seq![id_v("Err"@), paren_v(seq![id_v("self"@)])],
                ),
            ],
        ),
{
    let a2 = crate::emit::is_fn_v(d, i) + try_as_fn_v(d, i, false) + as_fn_v(d, i) + try_as_fn_v(d, i, true)
        + crate::emit::as_mut_fn_v(d, i);
    let t2 = try_into_fn_v(d, i);
    assert(accessors_v(d, i) =~= a2 + t2 + crate::emit::into_fn_v(d, i));
    lemma_occurs_self(t2);
    lemma_occurs_concat(a2, t2, t2);
    lemma_occurs_concat(a2 + t2, crate::emit::into_fn_v(d, i), t2);
    if i < j {
        assert(d.variants@[i].name@ != d.variants@[j].name@);
    } else {
        assert(d.variants@[j].name@ != d.variants@[i].name@);
    }
    let a = crate::emit::is_fn_v(d, i) + try_as_fn_v(d, i, false);
    let b = as_fn_v(d, i);
    let c = try_as_fn_v(d, i, true) + crate::emit::as_mut_fn_v(d, i) + crate::emit::try_into_fn_v(d, i)
        + crate::emit::into_fn_v(d, i);
    assert(accessors_v(d, i) =~= a + b + c);
    lemma_occurs_self(b);
    lemma_occurs_concat(a, b, b);
    lemma_occurs_concat(a + b, c, b);
}

/// Introspection: the list of variant names holds each variant's name, in declaration
/// order, as a string literal, all distinct in a well-formed definition; the name of a
/// value's variant has one arm per variant, mapping that variant to its own name.
pub proof fn law_introspection(d: TypeDef)
    requires
        wf_def(d),
    ensures
        occurs_in(render_type_v(d), introspection_v(d)),
        name_strs_v(d, d.variants.len() as int) == comma_join(name_lits(d, d.variants.len() as int)),
        forall|a: int, b: int|
            0 <= a < b < d.variants.len() ==> #[trigger] name_lits(d, d.variants.len() as int)[a]
                != #[trigger] name_lits(d, d.variants.len() as int)[b],
        forall|k: int| 0 <= k < d.variants.len() ==> #[trigger] occurs_in(
            name_arms_v(d, d.variants.len() as int),
            name_arm_v(d, k),
        ),
{
    let n = d.variants.len() as int;
    lemma_render_parts(d);
    lemma_name_strs(d, n);
    assert forall|a: int, b: int|
        0 <= a < b < d.variants.len() implies #[trigger] name_lits(d, n)[a] != #[trigger] name_lits(d, n)[b] by {
        assert(d.variants@[a].name@ != d.variants@[b].name@);
        if name_lits(d, n)[a] == name_lits(d, n)[b] {
            assert(name_lits(d, n)[a][0] == name_lits(d, n)[b][0]);
            lemma_quoted_injective(vname(d, a), vname(d, b));
        }
    }
    assert forall|k: int| 0 <= k < d.variants.len() implies #[trigger] occurs_in(name_arms_v(d, n), name_arm_v(d, k)) by {
        lemma_name_arms_hold(d, k, n);
    }
}

/// Reverse conversion: it is left out exactly where the payload type is one of the
/// definition's type parameters, or a reference (one level) to one; otherwise the output
/// holds it.
pub proof fn law_reverse_conversion(d: TypeDef, i: int)
    requires
        0 <= i < d.variants.len(),
    ensures
        uncovered(payload_v(d, i), param_names_of(d.generics.params@)) ==> reverse_v(d, i).len() == 0,
        !uncovered(payload_v(d, i), param_names_of(d.generics.params@)) ==> reverse_v(d, i)
            == try_from_impl_v(d, i) && occurs_in(render_type_v(d), try_from_impl_v(d, i)),
{
    lemma_reverses_hold(d, i, d.variants.len() as int);
    lemma_render_parts(d);
}

proof fn lemma_family_fns_hold(d: TypeDef, ty: Seq<char>, m: Method, bs: Seq<Seq<TokV>>, i: int, n: int)
    requires
        0 <= i < n,
    ensures
        occurs_in(family_fns_v(d, ty, m, bs, n), family_fn_v(d, ty, m, i, bs[i])),
    decreases n,
{
    let x = family_fn_v(d, ty, m, i, bs[i]);
    if i == n - 1 {
        lemma_occurs_self(x);
        lemma_occurs_concat(family_fns_v(d, ty, m, bs, n - 1), x, x);
    } else {
        lemma_family_fns_hold(d, ty, m, bs, i, n - 1);
        lemma_occurs_concat(family_fns_v(d, ty, m, bs, n - 1), family_fn_v(d, ty, m, n - 1, bs[n - 1]), x);
    }
}

/// Family mode: a method named with the family suffix becomes one method per variant,
/// in declaration order and nothing else; member `i` is named after variant `i`, and
/// where the template has a receiver its body is guarded by a match on variant `i` that
/// panics for any other.
pub proof fn law_family(d: TypeDef, ty: Seq<char>, m: Method, i: int)
    requires
        is_family(m),
        blocks_v(d, m, d.variants.len() as int) is Ok,
        0 <= i < d.variants.len(),
    ensures
        ({
            let bs = blocks_v(d, m, d.variants.len() as int)->Ok_0;
            let f = family_fn_v(d, ty, m, i, bs[i]);
            let fname = family_name_v(m, vname(d, i));
            &&& item_out_v(d, ty, ImplItem::Method(m)) == Ok::<Seq<TokV>, Seq<char>>(
                family_fns_v(d, ty, m, bs, d.variants.len() as int),
            )
            &&& occurs_in(family_fns_v(d, ty, m, bs, d.variants.len() as int), f)
            &&& f.subrange(0, vv_len(m) + 1) == crate::tokens::vv(m.head).push(id_v(fname))
            &&& m.has_receiver ==> f.subrange(f.len() - 1, f.len() as int) == guarded_v(d, ty, i, fname, bs[i])
        }),
{
    let bs = blocks_v(d, m, d.variants.len() as int)->Ok_0;
    let f = family_fn_v(d, ty, m, i, bs[i]);
    let fname = family_name_v(m, vname(d, i));
    lemma_family_fns_hold(d, ty, m, bs, i, d.variants.len() as int);
    assert(f.subrange(0, vv_len(m) + 1) =~= crate::tokens::vv(m.head).push(id_v(fname)));
    if m.has_receiver {
        assert(f.subrange(f.len() - 1, f.len() as int) =~= guarded_v(d, ty, i, fname, bs[i]));
    }
}

pub open spec fn vv_len(m: Method) -> int {
    crate::tokens::vv(m.head).len() as int
}

proof fn lemma_resolve_shift(pre: Seq<TokV>, rest: Seq<TokV>, i: int, acc: Seq<TokV>, b: Seq<char>)
    requires
        0 <= i,
    ensures
        resolve_from(pre + rest, pre.len() + i, acc, b) == resolve_from(rest, i, acc, b),
    decreases rest.len() - i,
{
    let s = pre + rest;
    let k = pre.len() + i;
    if i < rest.len() {
        assert(s[k] == rest[i]);
        if k + 1 < s.len() {
            assert(s[k + 1] == rest[i + 1]);
        }
        if k + 2 < s.len() {
            assert(s[k + 2] == rest[i + 2]);
        }
        if k + 3 < s.len() {
            assert(s[k + 3] == rest[i + 3]);
        }
        lemma_resolve_shift(pre, rest, i + 1, acc.push(rest[i]), b);
        if i + 3 <= rest.len() {
            lemma_resolve_shift(pre, rest, i + 3, acc, b);
            lemma_resolve_shift(pre, rest, i + 3, acc.push(TokV::Lit(quoted(b))), b);
        }
        if i + 4 <= rest.len() {
            lemma_resolve_shift(pre, rest, i + 4, acc, b);
            lemma_resolve_shift(pre, rest, i + 4, acc.push(TokV::Lit(quoted(b))), b);
        }
        match rest[i] {
            TokV::Group(dl, inner) => {
                match resolve_from(inner, 0, Seq::empty(), b) {
                    Ok(r) => {
                        lemma_resolve_shift(pre, rest, i + 1, acc.push(TokV::Group(dl, r)), b);
                    },
                    Err(_) => {},
                }
            },
            _ => {},
        }
    }
}

/// No identifier at the top level of `pre` is a directive.
pub open spec fn no_directive_at_top(pre: Seq<TokV>) -> bool {
    forall|k: int| 0 <= k < pre.len() && (#[trigger] pre[k]) is Ident ==> directive_kind(pre[k]->Ident_0) is None
}

proof fn lemma_resolve_prefix(pre: Seq<TokV>, x: Seq<TokV>, i: int, acc: Seq<TokV>, b: Seq<char>)
    requires
        0 <= i <= pre.len(),
        no_directive_at_top(pre),
        resolve_from(pre, i, acc, b) is Ok,
    ensures
        resolve_from(pre + x, i, acc, b) == resolve_from(pre + x, pre.len() as int, resolve_from(pre, i, acc, b)->Ok_0, b),
    decreases pre.len() - i,
{
    if i < pre.len() {
        let s = pre + x;
        assert(s[i] == pre[i]);
        match pre[i] {
            TokV::Group(dl, inner) => {
                match resolve_from(inner, 0, Seq::empty(), b) {
                    Ok(r) => {
                        lemma_resolve_prefix(pre, x, i + 1, acc.push(TokV::Group(dl, r)), b);
                    },
                    Err(_) => {},
                }
            },
            _ => {
                lemma_resolve_prefix(pre, x, i + 1, acc.push(pre[i]), b);
            },
        }
    }
}

/// Restrict and exclude: in a body whose top level holds, after code `pre` with no
/// directive, `summum_restrict!(A, ..)` (with or without `;`), the rest `rest` is kept as
/// written after `pre` when the body is specialised for a listed variant, and for any
/// other variant everything from the directive on is cut down to an immediate panic;
/// `summum_exclude!(A, ..)` does the opposite.
pub proof fn law_restrict_exclude(
    pre: Seq<TokV>,
    args: Seq<TokV>,
    rest: Seq<TokV>,
    b: Seq<char>,
    dl: Delim,
    restrict: bool,
    semi: bool,
)
    requires
        arg_names(args) is Some,
        no_directive_at_top(pre),
        resolve_spec(pre, b) is Ok,
        semi || !(rest.len() > 0 && rest[0] is Punct && rest[0]->Punct_0 == ';'),
    ensures
        ({
            let name = if restrict { "summum_restrict"@ } else { "summum_exclude"@ };
            let d = seq![id_v(name), pc_v('!'), TokV::Group(dl, args)] + if semi {
                seq![pc_v(';')]
            } else {
                Seq::empty()
            };
            let p = resolve_spec(pre, b)->Ok_0;
            let kept = arg_names(args)->Some_0.contains(b) == restrict;
            &&& kept ==> resolve_spec(pre + d + rest, b) == resolve_from(rest, 0, p, b)
            &&& !kept ==> resolve_spec(pre + d + rest, b) == Ok::<Seq<TokV>, Seq<char>>(
                seq![brace_v(p + macro_stmt_v("panic"@, cut_message(name, b)))],
            )
        }),
{
    reveal_strlit("summum_restrict");
    reveal_strlit("summum_exclude");
    assert("summum_restrict"@ != "summum_exclude"@) by {
        assert("summum_restrict"@[7] != "summum_exclude"@[7]);
    }
    let name = if restrict { "summum_restrict"@ } else { "summum_exclude"@ };
    let d = seq![id_v(name), pc_v('!'), TokV::Group(dl, args)] + if semi {
        seq![pc_v(';')]
    } else {
        Seq::empty()
    };
    let p = resolve_spec(pre, b)->Ok_0;
    let s = pre + d + rest;
    assert(s =~= pre + (d + rest));
    lemma_resolve_prefix(pre, d + rest, 0, Seq::empty(), b);
    let n = pre.len() as int;
    assert(s[n] == id_v(name) && s[n + 1] == pc_v('!') && s[n + 2] == TokV::Group(dl, args));
    if semi {
        assert(s[n + 3] == pc_v(';'));
    } else if n + 3 < s.len() {
        assert(s[n + 3] == rest[0]);
    }
    lemma_resolve_shift(pre + d, rest, 0, p, b);
}

proof fn lemma_records_hold(d: TypeDef, j: int, n: int)
    requires
        0 <= j < n,
    ensures
        occurs_in(record_decls_v(d, n), record_decl_v(d, j)),
    decreases n,
{
    if j == n - 1 {
        lemma_occurs_self(record_decl_v(d, j));
        lemma_occurs_concat(record_decls_v(d, n - 1), record_decl_v(d, j), record_decl_v(d, j));
    } else {
        lemma_records_hold(d, j, n - 1);
        lemma_occurs_concat(record_decls_v(d, n - 1), record_decl_v(d, n - 1), record_decl_v(d, j));
    }
}

/// Record form: in a well-formed record-form definition, every binding table `j` gives
/// one record type, named the union's name followed by the variant's, declared with the
/// union's attributes, the table's attributes, the union's visibility and generics, and
/// the field template rewritten through the table; the names of these types are distinct;
/// variant `j` carries that type, and the output converts it into the union.
pub proof fn law_record_variants(d: TypeDef, j: int)
    requires
        wf_def(d),
        0 <= j < d.records.len(),
    ensures
        occurs_in(render_type_v(d), record_decl_v(d, j)),
        record_decl_v(d, j) == crate::tokens::vv(d.attrs) + crate::tokens::vv(d.records@[j].attrs)
            + crate::tokens::vv(d.vis) + seq![
            id_v("struct"@),
            id_v(record_name_v(d.name@, d.records@[j].name@)),
        ] + type_generics_v(d.generics) + where_v(d.generics) + seq![
            TokV::Group(Delim::Brace, record_fields_v(d, j, d.fields.len() as int)),
        ],
        forall|k: int|
            0 <= k < d.records.len() && k != j ==> record_name_v(d.name@, d.records@[k].name@)
                != record_name_v(d.name@, d.records@[j].name@),
        vname(d, j) == d.records@[j].name@,
        payload_v(d, j) == record_payload_v(d, j),
        occurs_in(render_type_v(d), from_impl_v(d, j)),
{
    let u = crate::emit::union_decl_v(d);
    let r = record_decls_v(d, d.records.len() as int);
    let n = d.variants.len() as int;
    lemma_records_hold(d, j, d.records.len() as int);
    lemma_occurs_concat(u, r, record_decl_v(d, j));
    assert(render_type_v(d) == (u + r) + (froms_v(d, n) + reverses_v(d, n) + introspection_v(d)
        + accessors_impl_v(d))) by {
        assert(render_type_v(d) =~= (u + r) + (froms_v(d, n) + reverses_v(d, n) + introspection_v(d)
        + accessors_impl_v(d)));
    }
    lemma_occurs_concat(u + r, froms_v(d, n) + reverses_v(d, n) + introspection_v(d) + accessors_impl_v(d), record_decl_v(d, j));
    assert forall|k: int|
        0 <= k < d.records.len() && k != j implies record_name_v(d.name@, d.records@[k].name@)
            != record_name_v(d.name@, d.records@[j].name@) by {
        let a = d.records@[k].name@;
        let b = d.records@[j].name@;
        assert(d.variants@[k].name@ == a && d.variants@[j].name@ == b);
        if k < j {
            assert(d.variants@[k].name@ != d.variants@[j].name@);
        } else {
            assert(d.variants@[j].name@ != d.variants@[k].name@);
        }
        if d.name@ + a == d.name@ + b {
            assert(a =~= (d.name@ + a).subrange(d.name@.len() as int, (d.name@ + a).len() as int));
            assert(b =~= (d.name@ + b).subrange(d.name@.len() as int, (d.name@ + b).len() as int));
        }
    }
    assert(d.variants@[j].name@ == d.records@[j].name@);
    lemma_froms_hold(d, j, n);
    lemma_render_parts(d);
}

} // verus!
