//! The struct-variant expander: one record type per variant of a record-form
//! definition, from the shared field template and the variant's binding table.
use vstd::prelude::*;
use vstd::string::StringExecFns;
use crate::emit::top_type_v;
use crate::model::{type_generics_v, where_v, Binding, TypeDef};
use crate::substitute::{replace_idents, rule_v, subst_seq, Rule, RulesV, Subst};
use crate::tokens::{
    copy_toks, id_v, is_ident, lemma_toks_v, pc_v, push_all, put_group, put_ident, put_name,
    put_punct, toks_v, vv, Delim, Tok, TokV,
};

verus! {

broadcast use vstd::std_specs::vec::group_vec_axioms, vstd::seq::group_seq_axioms;

/// The name of the record type of variant `v` of the union `n`: the two joined.
pub open spec fn record_name_v(n: Seq<char>, v: Seq<char>) -> Seq<char> {
    n + v
}

/// What a placeholder stands for: a binding to the self-reference or to the payload
/// placeholder stands for the union type itself.
pub open spec fn binding_value_v(b: Binding, top: Seq<TokV>) -> Seq<TokV> {
    if vv(b.ty) == seq![id_v("Self"@)] || vv(b.ty) == seq![id_v("InnerT"@)] {
        top
    } else {
        vv(b.ty)
    }
}

/// The substitution applied to the field template for record variant `j`: its bindings,
/// then `Self` for the union type and `InnerT` for the record type itself.
pub open spec fn record_rules_v(d: TypeDef, j: int) -> RulesV {
    let top = top_type_v(d);
    d.records@[j].bindings@.map_values(|b: Binding| (b.key@, binding_value_v(b, top))) + seq![
        ("Self"@, top),
        ("InnerT"@, seq![id_v("Self"@)]),
    ]
}

pub open spec fn record_field_v(d: TypeDef, j: int, k: int) -> Seq<TokV> {
    vv(d.fields@[k].head) + subst_seq(vv(d.fields@[k].ty), record_rules_v(d, j), None)
}

pub open spec fn record_fields_v(d: TypeDef, j: int, n: int) -> Seq<TokV>
    decreases n,
{
    if n <= 0 {
        Seq::empty()
    } else if n == 1 {
        record_field_v(d, j, 0)
    } else {
        record_fields_v(d, j, n - 1) + seq![pc_v(',')] + record_field_v(d, j, n - 1)
    }
}

/// `attrs vis struct NameV<..> where .. { fields }` for record variant `j`.
pub open spec fn record_decl_v(d: TypeDef, j: int) -> Seq<TokV> {
    vv(d.attrs) + vv(d.records@[j].attrs) + vv(d.vis) + seq![
        id_v("struct"@),
        id_v(record_name_v(d.name@, d.records@[j].name@)),
    ] + type_generics_v(d.generics) + where_v(d.generics) + seq![
        TokV::Group(Delim::Brace, record_fields_v(d, j, d.fields.len() as int)),
    ]
}

pub open spec fn record_decls_v(d: TypeDef, n: int) -> Seq<TokV>
    decreases n,
{
    if n <= 0 {
        Seq::empty()
    } else {
        record_decls_v(d, n - 1) + record_decl_v(d, n - 1)
    }
}

/// The name of a record type: the union's name followed by the variant's.
pub fn record_name(n: &String, v: &String) -> (r: String)
    ensures
        r@ == record_name_v(n@, v@),
{
    let mut r = n.clone();
    r.append(v.as_str());
    r
}

fn binding_value(b: &Binding, top: &Vec<Tok>) -> (r: Vec<Tok>)
    ensures
        vv(r) == binding_value_v(*b, vv(*top)),
{
    proof {
        lemma_toks_v(b.ty@);
    }
    if b.ty.len() == 1 && (is_ident(&b.ty[0], "Self") || is_ident(&b.ty[0], "InnerT")) {
        assert(vv(b.ty) =~= seq![vv(b.ty)[0]]);
        copy_toks(top)
    } else {
        if b.ty.len() == 1 {
            assert(seq![id_v("Self"@)][0] == id_v("Self"@));
            assert(seq![id_v("InnerT"@)][0] == id_v("InnerT"@));
        }
        copy_toks(&b.ty)
    }
}

fn record_subst(d: &TypeDef, j: usize) -> (r: Subst)
    requires
        j < d.records.len(),
    ensures
        r@.0 == record_rules_v(*d, j as int),
        r@.1 is None,
{
    let mut top: Vec<Tok> = Vec::new();
    put_name(&mut top, &d.name);
    push_all(&mut top, &d.generics.type_generics());
    proof {
        assert(toks_v(Seq::<Tok>::empty()) =~= Seq::<TokV>::empty());
    }
    assert(vv(top) =~= top_type_v(*d));
    let bs = &d.records[j].bindings;
    let ghost tv = vv(top);
    let mut rules: Vec<Rule> = Vec::new();
    let mut i: usize = 0;
    while i < bs.len()
        invariant
            i <= bs.len(),
            tv == vv(top),
            rules@.map_values(|r: Rule| rule_v(r)) =~= bs@.subrange(0, i as int).map_values(
                |b: Binding| (b.key@, binding_value_v(b, tv)),
            ),
        decreases bs.len() - i,
    {
        let w = binding_value(&bs[i], &top);
        let ghost old_rules = rules@;
        let rl = Rule { name: bs[i].key.clone(), with: w };
        assert(rule_v(rl) == (bs@[i as int].key@, binding_value_v(bs@[i as int], tv)));
        rules.push(rl);
        assert(rules@.map_values(|r: Rule| rule_v(r)) =~= old_rules.map_values(|r: Rule| rule_v(r)).push(rule_v(rl)));
        assert(bs@.subrange(0, i + 1).map_values(|b: Binding| (b.key@, binding_value_v(b, tv)))
            =~= bs@.subrange(0, i as int).map_values(|b: Binding| (b.key@, binding_value_v(b, tv))).push(
            (bs@[i as int].key@, binding_value_v(bs@[i as int], tv))));
        i = i + 1;
    }
    assert(bs@.subrange(0, bs.len() as int) =~= bs@);
    let ghost r0 = rules@.map_values(|r: Rule| rule_v(r));
    let mut selfw: Vec<Tok> = Vec::new();
    put_ident(&mut selfw, "Self");
    assert(vv(selfw) =~= seq![id_v("Self"@)]);
    rules.push(Rule { name: String::from_str("Self"), with: top });
    rules.push(Rule { name: String::from_str("InnerT"), with: selfw });
    let r = Subst { rules, family: None };
    assert(r@.0 =~= record_rules_v(*d, j as int));
    r
}

/// Emits the record type of record variant `j`.
pub fn record_decl(d: &TypeDef, j: usize) -> (r: Vec<Tok>)
    requires
        j < d.records.len(),
    ensures
        vv(r) == record_decl_v(*d, j as int),
{
    let sub = record_subst(d, j);
    let mut fields: Vec<Tok> = Vec::new();
    proof {
        assert(toks_v(Seq::<Tok>::empty()) =~= Seq::<TokV>::empty());
    }
    let mut k: usize = 0;
    while k < d.fields.len()
        invariant
            j < d.records.len(),
            sub@.0 == record_rules_v(*d, j as int),
            sub@.1 is None,
            k <= d.fields.len(),
            vv(fields) == record_fields_v(*d, j as int, k as int),
        decreases d.fields.len() - k,
    {
        let ghost f0 = vv(fields);
        if k > 0 {
            put_punct(&mut fields, ',');
        }
        push_all(&mut fields, &d.fields[k].head);
        let t = replace_idents(&d.fields[k].ty, &sub);
        push_all(&mut fields, &t);
        assert(vv(fields) =~= record_fields_v(*d, j as int, k + 1));
        k = k + 1;
    }
    let mut r: Vec<Tok> = Vec::new();
    push_all(&mut r, &d.attrs);
    push_all(&mut r, &d.records[j].attrs);
    push_all(&mut r, &d.vis);
    put_ident(&mut r, "struct");
    let n = record_name(&d.name, &d.records[j].name);
    put_name(&mut r, &n);
    push_all(&mut r, &d.generics.type_generics());
    push_all(&mut r, &d.generics.where_clause);
    put_group(&mut r, Delim::Brace, fields);
    assert(vv(r) =~= record_decl_v(*d, j as int));
    r
}

} // verus!
