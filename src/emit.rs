//! The core emitter: the union declaration, its conversions, its introspection and its
//! accessor family.
use vstd::prelude::*;
use vstd::string::StringExecFns;
use crate::casing::{snake_name, snake_name_spec};
use crate::records::{record_decl, record_decls_v};
use crate::model::{
    impl_generics_v, type_generics_v, where_v, GenericParam, Generics, TypeDef,
};
use crate::tokens::{
    arrow_v, colon2_v, fat_arrow_v, id_v, lemma_toks_v, pc_v, pj_v, push_all, put_arrow,
    put_colon2, put_fat_arrow, put_group, put_ident, put_joint, put_name, put_punct, put_str_lit,
    quoted, toks_v, vv, Delim, Tok, TokV,
};

verus! {

broadcast use vstd::std_specs::vec::group_vec_axioms, vstd::seq::group_seq_axioms;

pub open spec fn paren_v(s: Seq<TokV>) -> TokV {
    TokV::Group(Delim::Paren, s)
}

pub open spec fn brace_v(s: Seq<TokV>) -> TokV {
    TokV::Group(Delim::Brace, s)
}

/// The union's type as used: `Name<'a, T>`.
pub open spec fn top_type_v(d: TypeDef) -> Seq<TokV> {
    seq![id_v(d.name@)] + type_generics_v(d.generics)
}

pub open spec fn payload_v(d: TypeDef, i: int) -> Seq<TokV> {
    vv(d.variants@[i].payload)
}

pub open spec fn vname(d: TypeDef, i: int) -> Seq<char> {
    d.variants@[i].name@
}

/// `#[allow(dead_code)]`
pub open spec fn allow_dead_v() -> Seq<TokV> {
    seq![
        pc_v('#'),
        TokV::Group(Delim::Bracket, seq![id_v("allow"@), paren_v(seq![id_v("dead_code"@)])]),
    ]
}

/// `impl<..> Name<..> where ..`
pub open spec fn inherent_head_v(d: TypeDef) -> Seq<TokV> {
    seq![id_v("impl"@)] + impl_generics_v(d.generics) + top_type_v(d) + where_v(d.generics)
}

/// The case `attrs V(P)` of the union declaration.
pub open spec fn case_v(d: TypeDef, i: int) -> Seq<TokV> {
    vv(d.variants@[i].attrs) + seq![id_v(vname(d, i)), paren_v(payload_v(d, i))]
}

/// The cases of the first `n` variants, separated by commas.
pub open spec fn cases_v(d: TypeDef, n: int) -> Seq<TokV>
    decreases n,
{
    if n <= 0 {
        Seq::empty()
    } else if n == 1 {
        case_v(d, 0)
    } else {
        cases_v(d, n - 1) + seq![pc_v(',')] + case_v(d, n - 1)
    }
}

/// The union declaration: `#[allow(dead_code)] attrs vis enum Name<..> where .. { cases }`.
pub open spec fn union_decl_v(d: TypeDef) -> Seq<TokV> {
    allow_dead_v() + vv(d.attrs) + vv(d.vis) + seq![id_v("enum"@)] + top_type_v(d) + where_v(
        d.generics,
    ) + seq![brace_v(cases_v(d, d.variants.len() as int))]
}

/// `impl<..> From<P> for Name<..> where .. { fn from(val: P) -> Self { Name::V(val) } }`
pub open spec fn from_impl_v(d: TypeDef, i: int) -> Seq<TokV> {
    seq![id_v("impl"@)] + impl_generics_v(d.generics) + seq![id_v("From"@), pc_v('<')] + payload_v(
        d,
        i,
    ) + seq![pc_v('>'), id_v("for"@)] + top_type_v(d) + where_v(d.generics) + seq![
        brace_v(
            seq![
                id_v("fn"@),
                id_v("from"@),
                paren_v(seq![id_v("val"@), pc_v(':')] + payload_v(d, i)),
            ] + arrow_v() + seq![
                id_v("Self"@),
                brace_v(
                    seq![id_v(d.name@)] + colon2_v() + seq![
                        id_v(vname(d, i)),
                        paren_v(seq![id_v("val"@)]),
                    ],
                ),
            ],
        ),
    ]
}

/// Whether the tokens are one identifier among `names`.
pub open spec fn is_bare_param(t: Seq<TokV>, names: Seq<Seq<char>>) -> bool {
    t.len() == 1 && t[0] is Ident && names.contains(t[0]->Ident_0)
}

/// A reference type `&'a mut X` without its `&`, lifetime and `mut`.
pub open spec fn strip_ref(t: Seq<TokV>) -> Seq<TokV> {
    let r = t.drop_first();
    let r = if r.len() >= 2 && r[0] == pj_v('\'') {
        r.subrange(2, r.len() as int)
    } else {
        r
    };
    if r.len() >= 1 && r[0] == id_v("mut"@) {
        r.drop_first()
    } else {
        r
    }
}

pub open spec fn is_ref(t: Seq<TokV>) -> bool {
    t.len() > 0 && t[0] is Punct && t[0]->Punct_0 == '&'
}

/// Whether a payload type is one of the definition's type parameters, or a reference
/// (one level) to one.
pub open spec fn uncovered(t: Seq<TokV>, names: Seq<Seq<char>>) -> bool {
    is_bare_param(t, names) || (is_ref(t) && is_bare_param(strip_ref(t), names))
}

/// `impl<..> core::convert::TryFrom<Name<..>> for P where .. { type Error = (); fn
/// try_from(val: Name<..>) -> Result<Self, Self::Error> { match val { Name::V(val) =>
/// Ok(val), _ => Err(()) } } }`
pub open spec fn try_from_impl_v(d: TypeDef, i: int) -> Seq<TokV> {
    seq![id_v("impl"@)] + impl_generics_v(d.generics) + seq![id_v("core"@)] + colon2_v() + seq![
        id_v("convert"@),
    ] + colon2_v() + seq![id_v("TryFrom"@), pc_v('<')] + top_type_v(d) + seq![
        pc_v('>'),
        id_v("for"@),
    ] + payload_v(d, i) + where_v(d.generics) + seq![brace_v(try_from_body_v(d, i))]
}

pub open spec fn try_from_body_v(d: TypeDef, i: int) -> Seq<TokV> {
    seq![
        id_v("type"@),
        id_v("Error"@),
        pc_v('='),
        paren_v(Seq::empty()),
        pc_v(';'),
        id_v("fn"@),
        id_v("try_from"@),
        paren_v(seq![id_v("val"@), pc_v(':')] + top_type_v(d)),
    ] + arrow_v() + seq![id_v("Result"@), pc_v('<'), id_v("Self"@), pc_v(','), id_v("Self"@)]
        + colon2_v() + seq![
        id_v("Error"@),
        pc_v('>'),
        brace_v(
            seq![
                id_v("match"@),
                id_v("val"@),
                brace_v(
                    seq![id_v(d.name@)] + colon2_v() + seq![
                        id_v(vname(d, i)),
                        paren_v(seq![id_v("val"@)]),
                    ] + fat_arrow_v() + seq![
                        id_v("Ok"@),
                        paren_v(seq![id_v("val"@)]),
                        pc_v(','),
                        id_v("_"@),
                    ] + fat_arrow_v() + seq![id_v("Err"@), paren_v(seq![paren_v(Seq::empty())])],
                ),
            ],
        ),
    ]
}

/// The reverse conversion of variant `i`, or nothing where its payload is uncovered.
pub open spec fn reverse_v(d: TypeDef, i: int) -> Seq<TokV> {
    if uncovered(payload_v(d, i), param_names_of(d.generics.params@)) {
        Seq::empty()
    } else {
        try_from_impl_v(d, i)
    }
}

fn top_type(d: &TypeDef) -> (r: Vec<Tok>)
    ensures
        vv(r) == top_type_v(*d),
{
    let mut r: Vec<Tok> = Vec::new();
    put_name(&mut r, &d.name);
    let tg = d.generics.type_generics();
    push_all(&mut r, &tg);
    assert(vv(r) =~= top_type_v(*d));
    r
}

fn allow_dead() -> (r: Vec<Tok>)
    ensures
        vv(r) == allow_dead_v(),
{
    let mut inner: Vec<Tok> = Vec::new();
    put_ident(&mut inner, "dead_code");
    assert(vv(inner) =~= seq![id_v("dead_code"@)]);
    let mut attr: Vec<Tok> = Vec::new();
    put_ident(&mut attr, "allow");
    put_group(&mut attr, Delim::Paren, inner);
    assert(vv(attr) =~= seq![id_v("allow"@), paren_v(seq![id_v("dead_code"@)])]);
    let mut r: Vec<Tok> = Vec::new();
    put_punct(&mut r, '#');
    put_group(&mut r, Delim::Bracket, attr);
    proof {
        assert(toks_v(Seq::<Tok>::empty()) =~= Seq::<TokV>::empty());
    }
    assert(vv(r) =~= allow_dead_v());
    r
}

fn inherent_head(d: &TypeDef) -> (r: Vec<Tok>)
    ensures
        vv(r) == inherent_head_v(*d),
{
    let mut r: Vec<Tok> = Vec::new();
    put_ident(&mut r, "impl");
    push_all(&mut r, &d.generics.impl_generics());
    push_all(&mut r, &top_type(d));
    push_all(&mut r, &d.generics.where_clause);
    assert(vv(r) =~= inherent_head_v(*d));
    r
}

/// Emits the union declaration.
pub fn union_decl(d: &TypeDef) -> (r: Vec<Tok>)
    ensures
        vv(r) == union_decl_v(*d),
{
    let mut cases: Vec<Tok> = Vec::new();
    let mut i: usize = 0;
    while i < d.variants.len()
        invariant
            i <= d.variants.len(),
            vv(cases) == cases_v(*d, i as int),
        decreases d.variants.len() - i,
    {
        if i > 0 {
            put_punct(&mut cases, ',');
        }
        push_all(&mut cases, &d.variants[i].attrs);
        put_name(&mut cases, &d.variants[i].name);
        let mut p: Vec<Tok> = Vec::new();
        push_all(&mut p, &d.variants[i].payload);
        put_group(&mut cases, Delim::Paren, p);
        proof {
            assert(toks_v(Seq::<Tok>::empty()) =~= Seq::<TokV>::empty());
            assert(vv(cases) =~= cases_v(*d, i + 1));
        }
        i = i + 1;
    }
    let mut r = allow_dead();
    push_all(&mut r, &d.attrs);
    push_all(&mut r, &d.vis);
    put_ident(&mut r, "enum");
    push_all(&mut r, &top_type(d));
    push_all(&mut r, &d.generics.where_clause);
    put_group(&mut r, Delim::Brace, cases);
    assert(vv(r) =~= union_decl_v(*d));
    r
}

/// Emits the conversion from the payload of variant `i` into the union.
pub fn from_impl(d: &TypeDef, i: usize) -> (r: Vec<Tok>)
    requires
        i < d.variants.len(),
    ensures
        vv(r) == from_impl_v(*d, i as int),
{
    let mut call: Vec<Tok> = Vec::new();
    put_name(&mut call, &d.name);
    put_colon2(&mut call);
    put_name(&mut call, &d.variants[i].name);
    let mut val: Vec<Tok> = Vec::new();
    put_ident(&mut val, "val");
    assert(vv(val) =~= seq![id_v("val"@)]);
    put_group(&mut call, Delim::Paren, val);
    assert(vv(call) =~= seq![id_v(d.name@)] + colon2_v() + seq![id_v(vname(*d, i as int)), paren_v(seq![id_v("val"@)])]);

    let mut params: Vec<Tok> = Vec::new();
    put_ident(&mut params, "val");
    put_punct(&mut params, ':');
    push_all(&mut params, &d.variants[i].payload);
    assert(vv(params) =~= seq![id_v("val"@), pc_v(':')] + payload_v(*d, i as int));

    let mut body: Vec<Tok> = Vec::new();
    put_ident(&mut body, "fn");
    put_ident(&mut body, "from");
    put_group(&mut body, Delim::Paren, params);
    put_arrow(&mut body);
    put_ident(&mut body, "Self");
    put_group(&mut body, Delim::Brace, call);
    assert(vv(body) =~= seq![
                id_v("fn"@),
                id_v("from"@),
                paren_v(seq![id_v("val"@), pc_v(':')] + payload_v(*d, i as int)),
            ] + arrow_v() + seq![
                id_v("Self"@),
                brace_v(
                    seq![id_v(d.name@)] + colon2_v() + seq![
                        id_v(vname(*d, i as int)),
                        paren_v(seq![id_v("val"@)]),
                    ],
                ),
            ]);

    let mut r: Vec<Tok> = Vec::new();
    put_ident(&mut r, "impl");
    push_all(&mut r, &d.generics.impl_generics());
    put_ident(&mut r, "From");
    put_punct(&mut r, '<');
    push_all(&mut r, &d.variants[i].payload);
    put_punct(&mut r, '>');
    put_ident(&mut r, "for");
    push_all(&mut r, &top_type(d));
    push_all(&mut r, &d.generics.where_clause);
    put_group(&mut r, Delim::Brace, body);
    proof {
        assert(toks_v(Seq::<Tok>::empty()) =~= Seq::<TokV>::empty());
    }
    assert(vv(r) =~= from_impl_v(*d, i as int));
    r
}

fn try_from_body(d: &TypeDef, i: usize) -> (r: Vec<Tok>)
    requires
        i < d.variants.len(),
    ensures
        vv(r) == try_from_body_v(*d, i as int),
{
    proof {
        assert(toks_v(Seq::<Tok>::empty()) =~= Seq::<TokV>::empty());
    }
    let mut val: Vec<Tok> = Vec::new();
    put_ident(&mut val, "val");
    let mut val2: Vec<Tok> = Vec::new();
    put_ident(&mut val2, "val");
    assert(vv(val) =~= seq![id_v("val"@)]);
    assert(vv(val2) =~= seq![id_v("val"@)]);
    let mut unit: Vec<Tok> = Vec::new();
    put_group(&mut unit, Delim::Paren, Vec::new());
    assert(vv(unit) =~= seq![paren_v(Seq::empty())]);

    let mut arms: Vec<Tok> = Vec::new();
    put_name(&mut arms, &d.name);
    put_colon2(&mut arms);
    put_name(&mut arms, &d.variants[i].name);
    put_group(&mut arms, Delim::Paren, val);
    put_fat_arrow(&mut arms);
    put_ident(&mut arms, "Ok");
    put_group(&mut arms, Delim::Paren, val2);
    put_punct(&mut arms, ',');
    put_ident(&mut arms, "_");
    put_fat_arrow(&mut arms);
    put_ident(&mut arms, "Err");
    put_group(&mut arms, Delim::Paren, unit);
    assert(vv(arms) =~= seq![id_v(d.name@)] + colon2_v() + seq![
                        id_v(vname(*d, i as int)),
                        paren_v(seq![id_v("val"@)]),
                    ] + fat_arrow_v() + seq![
                        id_v("Ok"@),
                        paren_v(seq![id_v("val"@)]),
                        pc_v(','),
                        id_v("_"@),
                    ] + fat_arrow_v() + seq![id_v("Err"@), paren_v(seq![paren_v(Seq::empty())])]);

    let mut m: Vec<Tok> = Vec::new();
    put_ident(&mut m, "match");
    put_ident(&mut m, "val");
    let ghost av = vv(arms);
    put_group(&mut m, Delim::Brace, arms);
    assert(vv(m) =~= seq![id_v("match"@), id_v("val"@), brace_v(av)]);

    let mut params: Vec<Tok> = Vec::new();
    put_ident(&mut params, "val");
    put_punct(&mut params, ':');
    push_all(&mut params, &top_type(d));
    assert(vv(params) =~= seq![id_v("val"@), pc_v(':')] + top_type_v(*d));

    let mut r: Vec<Tok> = Vec::new();
    put_ident(&mut r, "type");
    put_ident(&mut r, "Error");
    put_punct(&mut r, '=');
    put_group(&mut r, Delim::Paren, Vec::new());
    put_punct(&mut r, ';');
    put_ident(&mut r, "fn");
    put_ident(&mut r, "try_from");
    put_group(&mut r, Delim::Paren, params);
    put_arrow(&mut r);
    put_ident(&mut r, "Result");
    put_punct(&mut r, '<');
    put_ident(&mut r, "Self");
    put_punct(&mut r, ',');
    put_ident(&mut r, "Self");
    put_colon2(&mut r);
    put_ident(&mut r, "Error");
    put_punct(&mut r, '>');
    put_group(&mut r, Delim::Brace, m);
    assert(vv(r) =~= try_from_body_v(*d, i as int));
    r
}

/// Emits the conversion from the union into the payload of variant `i`.
pub fn try_from_impl(d: &TypeDef, i: usize) -> (r: Vec<Tok>)
    requires
        i < d.variants.len(),
    ensures
        vv(r) == try_from_impl_v(*d, i as int),
{
    let mut r: Vec<Tok> = Vec::new();
    put_ident(&mut r, "impl");
    push_all(&mut r, &d.generics.impl_generics());
    put_ident(&mut r, "core");
    put_colon2(&mut r);
    put_ident(&mut r, "convert");
    put_colon2(&mut r);
    put_ident(&mut r, "TryFrom");
    put_punct(&mut r, '<');
    push_all(&mut r, &top_type(d));
    put_punct(&mut r, '>');
    put_ident(&mut r, "for");
    push_all(&mut r, &d.variants[i].payload);
    push_all(&mut r, &d.generics.where_clause);
    put_group(&mut r, Delim::Brace, try_from_body(d, i));
    assert(vv(r) =~= try_from_impl_v(*d, i as int));
    r
}

pub open spec fn param_names_of(ps: Seq<GenericParam>) -> Seq<Seq<char>>
    decreases ps.len(),
{
    if ps.len() == 0 {
        Seq::empty()
    } else {
        let p = ps.last();
        if p.is_type && vv(p.name).len() == 1 && vv(p.name)[0] is Ident {
            param_names_of(ps.drop_last()).push(vv(p.name)[0]->Ident_0)
        } else {
            param_names_of(ps.drop_last())
        }
    }
}

pub open spec fn strings_v(v: Seq<String>) -> Seq<Seq<char>> {
    v.map_values(|x: String| x@)
}

/// The names of the definition's type parameters.
pub fn type_params_from_generics(g: &Generics) -> (r: Vec<String>)
    ensures
        strings_v(r@) == param_names_of(g.params@),
{
    let mut r: Vec<String> = Vec::new();
    let mut i: usize = 0;
    while i < g.params.len()
        invariant
            i <= g.params.len(),
            strings_v(r@) == param_names_of(g.params@.subrange(0, i as int)),
        decreases g.params.len() - i,
    {
        let p = &g.params[i];
        let ghost pre = g.params@.subrange(0, i as int);
        assert(g.params@.subrange(0, i + 1).drop_last() =~= pre);
        proof {
            lemma_toks_v(p.name@);
        }
        if p.is_type && p.name.len() == 1 {
            match &p.name[0] {
                Tok::Ident(n) => {
                    let ghost r0 = r@;
                    r.push(n.clone());
                    assert(strings_v(r@) =~= strings_v(r0).push(n@));
                },
                _ => {},
            }
        }
        i = i + 1;
    }
    assert(g.params@.subrange(0, g.params.len() as int) =~= g.params@);
    r
}

fn name_in(names: &Vec<String>, n: &String) -> (r: bool)
    ensures
        r == strings_v(names@).contains(n@),
{
    let mut i: usize = 0;
    while i < names.len()
        invariant
            i <= names.len(),
            forall|j: int| 0 <= j < i ==> names@[j]@ != n@,
        decreases names.len() - i,
    {
        if names[i] == *n {
            assert(strings_v(names@)[i as int] == n@);
            return true;
        }
        i = i + 1;
    }
    proof {
        if strings_v(names@).contains(n@) {
            let j = choose|j: int| 0 <= j < names.len() && #[trigger] strings_v(names@)[j] == n@;
            assert(names@[j]@ == n@);
        }
    }
    false
}

fn bare_param_at(names: &Vec<String>, ty: &Vec<Tok>, k: usize) -> (r: bool)
    requires
        k <= ty.len(),
    ensures
        r == is_bare_param(vv(*ty).subrange(k as int, ty.len() as int), strings_v(names@)),
{
    proof {
        lemma_toks_v(ty@);
    }
    if k >= ty.len() || ty.len() - k != 1 {
        return false;
    }
    match &ty[k] {
        Tok::Ident(n) => name_in(names, n),
        _ => false,
    }
}

/// Whether a payload type is one of the type parameters `names`, or a reference (one
/// level) to one: its reverse conversion is then not emitted.
pub fn detect_uncovered_type(names: &Vec<String>, ty: &Vec<Tok>) -> (r: bool)
    ensures
        r == uncovered(vv(*ty), strings_v(names@)),
{
    let ghost t = vv(*ty);
    proof {
        lemma_toks_v(ty@);
        assert(t.subrange(0, t.len() as int) =~= t);
    }
    if bare_param_at(names, ty, 0) {
        return true;
    }
    if ty.len() == 0 {
        return false;
    }
    let is_amp = match &ty[0] {
        Tok::Punct(c, _) => *c == '&',
        _ => false,
    };
    if !is_amp {
        return false;
    }
    let mut k: usize = 1;
    let ghost r1 = t.drop_first();
    assert(r1 =~= t.subrange(1, t.len() as int));
    if ty.len() >= 3 {
        match &ty[1] {
            Tok::Punct(c, j) => {
                if *c == '\'' && *j {
                    k = 3;
                }
            },
            _ => {},
        }
    }
    let ghost r2 = if r1.len() >= 2 && r1[0] == pj_v('\'') {
        r1.subrange(2, r1.len() as int)
    } else {
        r1
    };
    assert(r2 =~= t.subrange(k as int, t.len() as int));
    if k < ty.len() && crate::tokens::is_ident(&ty[k], "mut") {
        k = k + 1;
    }
    assert(strip_ref(t) =~= t.subrange(k as int, t.len() as int));
    bare_param_at(names, ty, k)
}

/// `"A", "B"` for the first `n` variants.
pub open spec fn name_strs_v(d: TypeDef, n: int) -> Seq<TokV>
    decreases n,
{
    if n <= 0 {
        Seq::empty()
    } else if n == 1 {
        seq![TokV::Lit(quoted(vname(d, 0)))]
    } else {
        name_strs_v(d, n - 1) + seq![pc_v(','), TokV::Lit(quoted(vname(d, n - 1)))]
    }
}

/// `Self::V(_) => "V"`
pub open spec fn name_arm_v(d: TypeDef, i: int) -> Seq<TokV> {
    seq![id_v("Self"@)] + colon2_v() + seq![id_v(vname(d, i)), paren_v(seq![id_v("_"@)])]
        + fat_arrow_v() + seq![TokV::Lit(quoted(vname(d, i)))]
}

pub open spec fn name_arms_v(d: TypeDef, n: int) -> Seq<TokV>
    decreases n,
{
    if n <= 0 {
        Seq::empty()
    } else if n == 1 {
        name_arm_v(d, 0)
    } else {
        name_arms_v(d, n - 1) + seq![pc_v(',')] + name_arm_v(d, n - 1)
    }
}

/// `&'static str`
pub open spec fn static_str_v() -> Seq<TokV> {
    seq![pc_v('&'), pj_v('\''), id_v("static"@), id_v("str"@)]
}

/// `pub const fn variants() -> &'static [&'static str] { &["A", ..] } pub fn
/// variant_name(&self) -> &'static str { match self { Self::A(_) => "A", .. } }`
pub open spec fn introspection_fns_v(d: TypeDef) -> Seq<TokV> {
    let n = d.variants.len() as int;
    seq![id_v("pub"@), id_v("const"@), id_v("fn"@), id_v("variants"@), paren_v(Seq::empty())]
        + arrow_v() + seq![
        pc_v('&'),
        pj_v('\''),
        id_v("static"@),
        TokV::Group(Delim::Bracket, static_str_v()),
        brace_v(seq![pc_v('&'), TokV::Group(Delim::Bracket, name_strs_v(d, n))]),
        id_v("pub"@),
        id_v("fn"@),
        id_v("variant_name"@),
        paren_v(seq![pc_v('&'), id_v("self"@)]),
    ] + arrow_v() + static_str_v() + seq![
        brace_v(seq![id_v("match"@), id_v("self"@), brace_v(name_arms_v(d, n))]),
    ]
}

/// The introspection impl: the list of variant names and the name of a value's variant.
pub open spec fn introspection_v(d: TypeDef) -> Seq<TokV> {
    allow_dead_v() + inherent_head_v(d) + seq![brace_v(introspection_fns_v(d))]
}

fn static_str() -> (r: Vec<Tok>)
    ensures
        vv(r) == static_str_v(),
{
    let mut r: Vec<Tok> = Vec::new();
    put_punct(&mut r, '&');
    put_joint(&mut r, '\'');
    put_ident(&mut r, "static");
    put_ident(&mut r, "str");
    proof {
        assert(toks_v(Seq::<Tok>::empty()) =~= Seq::<TokV>::empty());
    }
    assert(vv(r) =~= static_str_v());
    r
}

fn introspection_fns(d: &TypeDef) -> (r: Vec<Tok>)
    ensures
        vv(r) == introspection_fns_v(*d),
{
    proof {
        assert(toks_v(Seq::<Tok>::empty()) =~= Seq::<TokV>::empty());
    }
    let ghost n = d.variants.len() as int;
    let mut strs: Vec<Tok> = Vec::new();
    let mut arms: Vec<Tok> = Vec::new();
    let mut i: usize = 0;
    while i < d.variants.len()
        invariant
            i <= d.variants.len(),
            vv(strs) == name_strs_v(*d, i as int),
            vv(arms) == name_arms_v(*d, i as int),
        decreases d.variants.len() - i,
    {
        if i > 0 {
            put_punct(&mut strs, ',');
            put_punct(&mut arms, ',');
        }
        put_str_lit(&mut strs, d.variants[i].name.as_str());
        put_ident(&mut arms, "Self");
        put_colon2(&mut arms);
        put_name(&mut arms, &d.variants[i].name);
        let mut us: Vec<Tok> = Vec::new();
        put_ident(&mut us, "_");
        assert(vv(us) =~= seq![id_v("_"@)]);
        put_group(&mut arms, Delim::Paren, us);
        put_fat_arrow(&mut arms);
        put_str_lit(&mut arms, d.variants[i].name.as_str());
        assert(vv(strs) =~= name_strs_v(*d, i + 1));
        assert(vv(arms) =~= name_arms_v(*d, i + 1));
        i = i + 1;
    }
    let ghost sv = vv(strs);
    let ghost av = vv(arms);
    let mut list: Vec<Tok> = Vec::new();
    put_punct(&mut list, '&');
    put_group(&mut list, Delim::Bracket, strs);
    assert(vv(list) =~= seq![pc_v('&'), TokV::Group(Delim::Bracket, sv)]);
    let mut m: Vec<Tok> = Vec::new();
    put_ident(&mut m, "match");
    put_ident(&mut m, "self");
    put_group(&mut m, Delim::Brace, arms);
    assert(vv(m) =~= seq![id_v("match"@), id_v("self"@), brace_v(av)]);
    let mut recv: Vec<Tok> = Vec::new();
    put_punct(&mut recv, '&');
    put_ident(&mut recv, "self");
    assert(vv(recv) =~= seq![pc_v('&'), id_v("self"@)]);

    let mut r: Vec<Tok> = Vec::new();
    put_ident(&mut r, "pub");
    put_ident(&mut r, "const");
    put_ident(&mut r, "fn");
    put_ident(&mut r, "variants");
    put_group(&mut r, Delim::Paren, Vec::new());
    put_arrow(&mut r);
    put_punct(&mut r, '&');
    put_joint(&mut r, '\'');
    put_ident(&mut r, "static");
    put_group(&mut r, Delim::Bracket, static_str());
    put_group(&mut r, Delim::Brace, list);
    put_ident(&mut r, "pub");
    put_ident(&mut r, "fn");
    put_ident(&mut r, "variant_name");
    put_group(&mut r, Delim::Paren, recv);
    put_arrow(&mut r);
    push_all(&mut r, &static_str());
    put_group(&mut r, Delim::Brace, m);
    assert(vv(r) =~= introspection_fns_v(*d));
    r
}

/// Emits the introspection impl of the union.
pub fn introspection(d: &TypeDef) -> (r: Vec<Tok>)
    ensures
        vv(r) == introspection_v(*d),
{
    let mut r = allow_dead();
    push_all(&mut r, &inherent_head(d));
    let mut body: Vec<Tok> = Vec::new();
    push_all(&mut body, &introspection_fns(d));
    proof {
        assert(toks_v(Seq::<Tok>::empty()) =~= Seq::<TokV>::empty());
        assert(vv(body) =~= introspection_fns_v(*d));
    }
    put_group(&mut r, Delim::Brace, body);
    assert(vv(r) =~= introspection_v(*d));
    r
}

/// `Self::V(bind)`
pub open spec fn variant_pat_v(d: TypeDef, i: int, bind: Seq<char>) -> Seq<TokV> {
    seq![id_v("Self"@)] + colon2_v() + seq![id_v(vname(d, i)), paren_v(seq![id_v(bind)])]
}

/// `Self::V(val) => Some(val), _ => None`
pub open spec fn opt_arms_v(d: TypeDef, i: int) -> Seq<TokV> {
    variant_pat_v(d, i, "val"@) + fat_arrow_v() + seq![
        id_v("Some"@),
        paren_v(seq![id_v("val"@)]),
        pc_v(','),
        id_v("_"@),
    ] + fat_arrow_v() + seq![id_v("None"@)]
}

pub open spec fn downcast_msg(n: Seq<char>, v: Seq<char>) -> Seq<char> {
    "invalid downcast: "@ + n + "::{} expecting "@ + v + " found {}"@
}

/// `panic!("invalid downcast: ..", "fname", tail)`
pub open spec fn panic_call_v(d: TypeDef, i: int, fname: Seq<char>, tail: Seq<TokV>) -> Seq<TokV> {
    seq![
        id_v("panic"@),
        pc_v('!'),
        paren_v(
            seq![
                TokV::Lit(quoted(downcast_msg(d.name@, vname(d, i)))),
                pc_v(','),
                TokV::Lit(quoted(fname)),
                pc_v(','),
            ] + tail,
        ),
    ]
}

/// `recv.variant_name()`
pub open spec fn name_call_v(recv: Seq<char>) -> Seq<TokV> {
    seq![id_v(recv), pc_v('.'), id_v("variant_name"@), paren_v(Seq::empty())]
}

/// `self.try_fn().unwrap_or_else(closure_params panic)`
pub open spec fn unwrap_v(try_fn: Seq<char>, params: Seq<TokV>, panic: Seq<TokV>) -> Seq<TokV> {
    seq![
        id_v("self"@),
        pc_v('.'),
        id_v(try_fn),
        paren_v(Seq::empty()),
        pc_v('.'),
        id_v("unwrap_or_else"@),
        paren_v(params + panic),
    ]
}

pub open spec fn fn_head_v(name: Seq<char>, params: Seq<TokV>) -> Seq<TokV> {
    seq![id_v("pub"@), id_v("fn"@), id_v(name), paren_v(params)] + arrow_v()
}

pub open spec fn recv_ref_v() -> Seq<TokV> {
    seq![pc_v('&'), id_v("self"@)]
}

pub open spec fn recv_mut_v() -> Seq<TokV> {
    seq![pc_v('&'), id_v("mut"@), id_v("self"@)]
}

/// `pub fn is_v(&self) -> bool { match self { Self::V(_) => true, _ => false } }`
pub open spec fn is_fn_v(d: TypeDef, i: int) -> Seq<TokV> {
    fn_head_v(snake_name_spec("is"@, vname(d, i)), recv_ref_v()) + seq![
        id_v("bool"@),
        brace_v(
            seq![
                id_v("match"@),
                id_v("self"@),
                brace_v(
                    variant_pat_v(d, i, "_"@) + fat_arrow_v() + seq![
                        id_v("true"@),
                        pc_v(','),
                        id_v("_"@),
                    ] + fat_arrow_v() + seq![id_v("false"@)],
                ),
            ],
        ),
    ]
}

/// `pub fn try_as_v(&self) -> Option<&P> { match self { .. } }`, and the same with
/// `&mut` for `try_as_mut_v`.
pub open spec fn try_as_fn_v(d: TypeDef, i: int, mutable: bool) -> Seq<TokV> {
    let base = if mutable { "try_as_mut"@ } else { "try_as"@ };
    let m = if mutable { seq![id_v("mut"@)] } else { Seq::empty() };
    fn_head_v(snake_name_spec(base, vname(d, i)), if mutable { recv_mut_v() } else { recv_ref_v() })
        + seq![id_v("Option"@), pc_v('<'), pc_v('&')] + m + payload_v(d, i) + seq![
        pc_v('>'),
        brace_v(seq![id_v("match"@), id_v("self"@), brace_v(opt_arms_v(d, i))]),
    ]
}

/// `pub fn as_v(&self) -> &P { self.try_as_v().unwrap_or_else(|| panic!(..)) }`
pub open spec fn as_fn_v(d: TypeDef, i: int) -> Seq<TokV> {
    let name = snake_name_spec("as"@, vname(d, i));
    fn_head_v(name, recv_ref_v()) + seq![pc_v('&')] + payload_v(d, i) + seq![
        brace_v(
            unwrap_v(
                snake_name_spec("try_as"@, vname(d, i)),
                seq![pj_v('|'), pc_v('|')],
                panic_call_v(d, i, name, name_call_v("self"@)),
            ),
        ),
    ]
}

/// `pub fn as_mut_v(&mut self) -> &mut P { let variant_name = self.variant_name();
/// self.try_as_mut_v().unwrap_or_else(|| panic!(..)) }`
pub open spec fn as_mut_fn_v(d: TypeDef, i: int) -> Seq<TokV> {
    let name = snake_name_spec("as_mut"@, vname(d, i));
    fn_head_v(name, recv_mut_v()) + seq![pc_v('&'), id_v("mut"@)] + payload_v(d, i) + seq![
        brace_v(
            seq![id_v("let"@), id_v("variant_name"@), pc_v('=')] + name_call_v("self"@) + seq![
                pc_v(';'),
            ] + unwrap_v(
                snake_name_spec("try_as_mut"@, vname(d, i)),
                seq![pj_v('|'), pc_v('|')],
                panic_call_v(d, i, name, seq![id_v("variant_name"@)]),
            ),
        ),
    ]
}

/// `pub fn try_into_v(self) -> core::result::Result<P, Self> { match self {
/// Self::V(val) => Ok(val), _ => Err(self) } }`
pub open spec fn try_into_fn_v(d: TypeDef, i: int) -> Seq<TokV> {
    fn_head_v(snake_name_spec("try_into"@, vname(d, i)), seq![id_v("self"@)]) + seq![id_v("core"@)]
        + colon2_v() + seq![id_v("result"@)] + colon2_v() + seq![id_v("Result"@), pc_v('<')]
        + payload_v(d, i) + seq![
        pc_v(','),
        id_v("Self"@),
        pc_v('>'),
        brace_v(
            seq![
                id_v("match"@),
                id_v("self"@),
                brace_v(
                    variant_pat_v(d, i, "val"@) + fat_arrow_v() + seq![
                        id_v("Ok"@),
                        paren_v(seq![id_v("val"@)]),
                        pc_v(','),
                        id_v("_"@),
                    ] + fat_arrow_v() + seq![id_v("Err"@), paren_v(seq![id_v("self"@)])],
                ),
            ],
        ),
    ]
}

/// `pub fn into_v(self) -> P { self.try_into_v().unwrap_or_else(|t| panic!(..)) }`
pub open spec fn into_fn_v(d: TypeDef, i: int) -> Seq<TokV> {
    let name = snake_name_spec("into"@, vname(d, i));
    fn_head_v(name, seq![id_v("self"@)]) + payload_v(d, i) + seq![
        brace_v(
            unwrap_v(
                snake_name_spec("try_into"@, vname(d, i)),
                seq![pc_v('|'), id_v("t"@), pc_v('|')],
                panic_call_v(d, i, name, name_call_v("t"@)),
            ),
        ),
    ]
}

/// The seven accessors of variant `i`.
pub open spec fn accessors_v(d: TypeDef, i: int) -> Seq<TokV> {
    is_fn_v(d, i) + try_as_fn_v(d, i, false) + as_fn_v(d, i) + try_as_fn_v(d, i, true)
        + as_mut_fn_v(d, i) + try_into_fn_v(d, i) + into_fn_v(d, i)
}

pub open spec fn all_accessors_v(d: TypeDef, n: int) -> Seq<TokV>
    decreases n,
{
    if n <= 0 {
        Seq::empty()
    } else {
        all_accessors_v(d, n - 1) + accessors_v(d, n - 1)
    }
}

/// The impl that holds every variant's accessors.
pub open spec fn accessors_impl_v(d: TypeDef) -> Seq<TokV> {
    allow_dead_v() + inherent_head_v(d) + seq![
        brace_v(all_accessors_v(d, d.variants.len() as int)),
    ]
}

fn variant_pat(out: &mut Vec<Tok>, d: &TypeDef, i: usize, bind: &str)
    requires
        i < d.variants.len(),
    ensures
        vv(*final(out)) == vv(*old(out)) + variant_pat_v(*d, i as int, bind@),
{
    let ghost o = vv(*out);
    put_ident(out, "Self");
    put_colon2(out);
    put_name(out, &d.variants[i].name);
    let mut b: Vec<Tok> = Vec::new();
    put_ident(&mut b, bind);
    proof {
        assert(toks_v(Seq::<Tok>::empty()) =~= Seq::<TokV>::empty());
    }
    assert(vv(b) =~= seq![id_v(bind@)]);
    put_group(out, Delim::Paren, b);
    assert(vv(*out) =~= o + variant_pat_v(*d, i as int, bind@));
}

fn fn_head(out: &mut Vec<Tok>, name: &String, params: Vec<Tok>)
    ensures
        vv(*final(out)) == vv(*old(out)) + fn_head_v(name@, vv(params)),
{
    let ghost o = vv(*out);
    put_ident(out, "pub");
    put_ident(out, "fn");
    put_name(out, name);
    put_group(out, Delim::Paren, params);
    put_arrow(out);
    assert(vv(*out) =~= o + fn_head_v(name@, vv(params)));
}

fn recv(mutable: bool) -> (r: Vec<Tok>)
    ensures
        vv(r) == if mutable { recv_mut_v() } else { recv_ref_v() },
{
    let mut r: Vec<Tok> = Vec::new();
    put_punct(&mut r, '&');
    if mutable {
        put_ident(&mut r, "mut");
    }
    put_ident(&mut r, "self");
    proof {
        assert(toks_v(Seq::<Tok>::empty()) =~= Seq::<TokV>::empty());
    }
    assert(vv(r) =~= if mutable { recv_mut_v() } else { recv_ref_v() });
    r
}

fn one(name: &str) -> (r: Vec<Tok>)
    ensures
        vv(r) == seq![id_v(name@)],
{
    let mut r: Vec<Tok> = Vec::new();
    put_ident(&mut r, name);
    proof {
        assert(toks_v(Seq::<Tok>::empty()) =~= Seq::<TokV>::empty());
    }
    assert(vv(r) =~= seq![id_v(name@)]);
    r
}

fn is_fn(out: &mut Vec<Tok>, d: &TypeDef, i: usize)
    requires
        i < d.variants.len(),
    ensures
        vv(*final(out)) == vv(*old(out)) + is_fn_v(*d, i as int),
{
    let ghost o = vv(*out);
    let name = snake_name("is", d.variants[i].name.as_str());
    fn_head(out, &name, recv(false));
    put_ident(out, "bool");
    let mut arms: Vec<Tok> = Vec::new();
    variant_pat(&mut arms, d, i, "_");
    put_fat_arrow(&mut arms);
    put_ident(&mut arms, "true");
    put_punct(&mut arms, ',');
    put_ident(&mut arms, "_");
    put_fat_arrow(&mut arms);
    put_ident(&mut arms, "false");
    let ghost av = vv(arms);
    proof {
        assert(toks_v(Seq::<Tok>::empty()) =~= Seq::<TokV>::empty());
        assert(av =~= variant_pat_v(*d, i as int, "_"@) + fat_arrow_v() + seq![
                        id_v("true"@),
                        pc_v(','),
                        id_v("_"@),
                    ] + fat_arrow_v() + seq![id_v("false"@)]);
    }
    let mut m: Vec<Tok> = Vec::new();
    put_ident(&mut m, "match");
    put_ident(&mut m, "self");
    put_group(&mut m, Delim::Brace, arms);
    assert(vv(m) =~= seq![id_v("match"@), id_v("self"@), brace_v(av)]);
    put_group(out, Delim::Brace, m);
    assert(vv(*out) =~= o + is_fn_v(*d, i as int));
}

fn opt_arms(d: &TypeDef, i: usize) -> (r: Vec<Tok>)
    requires
        i < d.variants.len(),
    ensures
        vv(r) == opt_arms_v(*d, i as int),
{
    let mut arms: Vec<Tok> = Vec::new();
    variant_pat(&mut arms, d, i, "val");
    put_fat_arrow(&mut arms);
    put_ident(&mut arms, "Some");
    put_group(&mut arms, Delim::Paren, one("val"));
    put_punct(&mut arms, ',');
    put_ident(&mut arms, "_");
    put_fat_arrow(&mut arms);
    put_ident(&mut arms, "None");
    proof {
        assert(toks_v(Seq::<Tok>::empty()) =~= Seq::<TokV>::empty());
    }
    assert(vv(arms) =~= opt_arms_v(*d, i as int));
    arms
}

fn try_as_fn(out: &mut Vec<Tok>, d: &TypeDef, i: usize, mutable: bool)
    requires
        i < d.variants.len(),
    ensures
        vv(*final(out)) == vv(*old(out)) + try_as_fn_v(*d, i as int, mutable),
{
    let ghost o = vv(*out);
    let base = if mutable { "try_as_mut" } else { "try_as" };
    let name = snake_name(base, d.variants[i].name.as_str());
    fn_head(out, &name, recv(mutable));
    put_ident(out, "Option");
    put_punct(out, '<');
    put_punct(out, '&');
    let ghost o2 = vv(*out);
    if mutable {
        put_ident(out, "mut");
    }
    let ghost m = if mutable { seq![id_v("mut"@)] } else { Seq::<TokV>::empty() };
    assert(vv(*out) =~= o2 + m);
    push_all(out, &d.variants[i].payload);
    put_punct(out, '>');
    let mut mt: Vec<Tok> = Vec::new();
    put_ident(&mut mt, "match");
    put_ident(&mut mt, "self");
    put_group(&mut mt, Delim::Brace, opt_arms(d, i));
    proof {
        assert(toks_v(Seq::<Tok>::empty()) =~= Seq::<TokV>::empty());
    }
    assert(vv(mt) =~= seq![id_v("match"@), id_v("self"@), brace_v(opt_arms_v(*d, i as int))]);
    put_group(out, Delim::Brace, mt);
    assert(vv(*out) =~= o + try_as_fn_v(*d, i as int, mutable));
}

fn panic_call(out: &mut Vec<Tok>, d: &TypeDef, i: usize, fname: &String, tail: Vec<Tok>)
    requires
        i < d.variants.len(),
    ensures
        vv(*final(out)) == vv(*old(out)) + panic_call_v(*d, i as int, fname@, vv(tail)),
{
    let ghost o = vv(*out);
    let mut msg = String::from_str("invalid downcast: ");
    msg.append(d.name.as_str());
    msg.append("::{} expecting ");
    msg.append(d.variants[i].name.as_str());
    msg.append(" found {}");
    assert(msg@ =~= downcast_msg(d.name@, vname(*d, i as int)));
    let mut args: Vec<Tok> = Vec::new();
    put_str_lit(&mut args, msg.as_str());
    put_punct(&mut args, ',');
    put_str_lit(&mut args, fname.as_str());
    put_punct(&mut args, ',');
    push_all(&mut args, &tail);
    proof {
        assert(toks_v(Seq::<Tok>::empty()) =~= Seq::<TokV>::empty());
    }
    assert(vv(args) =~= seq![
                TokV::Lit(quoted(downcast_msg(d.name@, vname(*d, i as int)))),
                pc_v(','),
                TokV::Lit(quoted(fname@)),
                pc_v(','),
            ] + vv(tail));
    put_ident(out, "panic");
    put_punct(out, '!');
    put_group(out, Delim::Paren, args);
    assert(vv(*out) =~= o + panic_call_v(*d, i as int, fname@, vv(tail)));
}

fn name_call(recv: &str) -> (r: Vec<Tok>)
    ensures
        vv(r) == name_call_v(recv@),
{
    let mut r: Vec<Tok> = Vec::new();
    put_ident(&mut r, recv);
    put_punct(&mut r, '.');
    put_ident(&mut r, "variant_name");
    put_group(&mut r, Delim::Paren, Vec::new());
    proof {
        assert(toks_v(Seq::<Tok>::empty()) =~= Seq::<TokV>::empty());
    }
    assert(vv(r) =~= name_call_v(recv@));
    r
}

fn unwrap(out: &mut Vec<Tok>, try_fn: &String, params: Vec<Tok>, panic: Vec<Tok>)
    ensures
        vv(*final(out)) == vv(*old(out)) + unwrap_v(try_fn@, vv(params), vv(panic)),
{
    let ghost o = vv(*out);
    let mut inner = params;
    let ghost pv = vv(inner);
    push_all(&mut inner, &panic);
    put_ident(out, "self");
    put_punct(out, '.');
    put_name(out, try_fn);
    put_group(out, Delim::Paren, Vec::new());
    put_punct(out, '.');
    put_ident(out, "unwrap_or_else");
    put_group(out, Delim::Paren, inner);
    proof {
        assert(toks_v(Seq::<Tok>::empty()) =~= Seq::<TokV>::empty());
    }
    assert(vv(*out) =~= o + unwrap_v(try_fn@, pv, vv(panic)));
}

fn bars(with_t: bool) -> (r: Vec<Tok>)
    ensures
        vv(r) == if with_t {
            seq![pc_v('|'), id_v("t"@), pc_v('|')]
        } else {
            seq![pj_v('|'), pc_v('|')]
        },
{
    let mut r: Vec<Tok> = Vec::new();
    if with_t {
        put_punct(&mut r, '|');
        put_ident(&mut r, "t");
    } else {
        put_joint(&mut r, '|');
    }
    put_punct(&mut r, '|');
    proof {
        assert(toks_v(Seq::<Tok>::empty()) =~= Seq::<TokV>::empty());
    }
    assert(vv(r) =~= if with_t {
            seq![pc_v('|'), id_v("t"@), pc_v('|')]
        } else {
            seq![pj_v('|'), pc_v('|')]
        });
    r
}

fn as_fn(out: &mut Vec<Tok>, d: &TypeDef, i: usize)
    requires
        i < d.variants.len(),
    ensures
        vv(*final(out)) == vv(*old(out)) + as_fn_v(*d, i as int),
{
    let ghost o = vv(*out);
    let name = snake_name("as", d.variants[i].name.as_str());
    let try_name = snake_name("try_as", d.variants[i].name.as_str());
    fn_head(out, &name, recv(false));
    put_punct(out, '&');
    push_all(out, &d.variants[i].payload);
    let mut p: Vec<Tok> = Vec::new();
    panic_call(&mut p, d, i, &name, name_call("self"));
    let mut body: Vec<Tok> = Vec::new();
    unwrap(&mut body, &try_name, bars(false), p);
    proof {
        assert(toks_v(Seq::<Tok>::empty()) =~= Seq::<TokV>::empty());
    }
    let ghost bv = vv(body);
    put_group(out, Delim::Brace, body);
    assert(bv =~= unwrap_v(
                snake_name_spec("try_as"@, vname(*d, i as int)),
                seq![pj_v('|'), pc_v('|')],
                panic_call_v(*d, i as int, name@, name_call_v("self"@)),
            ));
    assert(vv(*out) =~= o + as_fn_v(*d, i as int));
}

fn as_mut_fn(out: &mut Vec<Tok>, d: &TypeDef, i: usize)
    requires
        i < d.variants.len(),
    ensures
        vv(*final(out)) == vv(*old(out)) + as_mut_fn_v(*d, i as int),
{
    let ghost o = vv(*out);
    let name = snake_name("as_mut", d.variants[i].name.as_str());
    let try_name = snake_name("try_as_mut", d.variants[i].name.as_str());
    fn_head(out, &name, recv(true));
    put_punct(out, '&');
    put_ident(out, "mut");
    push_all(out, &d.variants[i].payload);
    let mut p: Vec<Tok> = Vec::new();
    panic_call(&mut p, d, i, &name, one("variant_name"));
    let mut body: Vec<Tok> = Vec::new();
    put_ident(&mut body, "let");
    put_ident(&mut body, "variant_name");
    put_punct(&mut body, '=');
    push_all(&mut body, &name_call("self"));
    put_punct(&mut body, ';');
    unwrap(&mut body, &try_name, bars(false), p);
    proof {
        assert(toks_v(Seq::<Tok>::empty()) =~= Seq::<TokV>::empty());
    }
    let ghost bv = vv(body);
    put_group(out, Delim::Brace, body);
    assert(bv =~= seq![id_v("let"@), id_v("variant_name"@), pc_v('=')] + name_call_v("self"@) + seq![
                pc_v(';'),
            ] + unwrap_v(
                snake_name_spec("try_as_mut"@, vname(*d, i as int)),
                seq![pj_v('|'), pc_v('|')],
                panic_call_v(*d, i as int, name@, seq![id_v("variant_name"@)]),
            ));
    assert(vv(*out) =~= o + as_mut_fn_v(*d, i as int));
}

fn try_into_fn(out: &mut Vec<Tok>, d: &TypeDef, i: usize)
    requires
        i < d.variants.len(),
    ensures
        vv(*final(out)) == vv(*old(out)) + try_into_fn_v(*d, i as int),
{
    let ghost o = vv(*out);
    let name = snake_name("try_into", d.variants[i].name.as_str());
    fn_head(out, &name, one("self"));
    put_ident(out, "core");
    put_colon2(out);
    put_ident(out, "result");
    put_colon2(out);
    put_ident(out, "Result");
    put_punct(out, '<');
    push_all(out, &d.variants[i].payload);
    put_punct(out, ',');
    put_ident(out, "Self");
    put_punct(out, '>');
    let mut arms: Vec<Tok> = Vec::new();
    variant_pat(&mut arms, d, i, "val");
    put_fat_arrow(&mut arms);
    put_ident(&mut arms, "Ok");
    put_group(&mut arms, Delim::Paren, one("val"));
    put_punct(&mut arms, ',');
    put_ident(&mut arms, "_");
    put_fat_arrow(&mut arms);
    put_ident(&mut arms, "Err");
    put_group(&mut arms, Delim::Paren, one("self"));
    proof {
        assert(toks_v(Seq::<Tok>::empty()) =~= Seq::<TokV>::empty());
    }
    let ghost av = vv(arms);
    assert(av =~= variant_pat_v(*d, i as int, "val"@) + fat_arrow_v() + seq![
                        id_v("Ok"@),
                        paren_v(seq![id_v("val"@)]),
                        pc_v(','),
                        id_v("_"@),
                    ] + fat_arrow_v() + seq![id_v("Err"@), paren_v(seq![id_v("self"@)])]);
    let mut m: Vec<Tok> = Vec::new();
    put_ident(&mut m, "match");
    put_ident(&mut m, "self");
    put_group(&mut m, Delim::Brace, arms);
    assert(vv(m) =~= seq![id_v("match"@), id_v("self"@), brace_v(av)]);
    put_group(out, Delim::Brace, m);
    assert(vv(*out) =~= o + try_into_fn_v(*d, i as int));
}

fn into_fn(out: &mut Vec<Tok>, d: &TypeDef, i: usize)
    requires
        i < d.variants.len(),
    ensures
        vv(*final(out)) == vv(*old(out)) + into_fn_v(*d, i as int),
{
    let ghost o = vv(*out);
    let name = snake_name("into", d.variants[i].name.as_str());
    let try_name = snake_name("try_into", d.variants[i].name.as_str());
    fn_head(out, &name, one("self"));
    push_all(out, &d.variants[i].payload);
    let mut p: Vec<Tok> = Vec::new();
    panic_call(&mut p, d, i, &name, name_call("t"));
    let mut body: Vec<Tok> = Vec::new();
    unwrap(&mut body, &try_name, bars(true), p);
    proof {
        assert(toks_v(Seq::<Tok>::empty()) =~= Seq::<TokV>::empty());
    }
    let ghost bv = vv(body);
    put_group(out, Delim::Brace, body);
    assert(bv =~= unwrap_v(
                snake_name_spec("try_into"@, vname(*d, i as int)),
                seq![pc_v('|'), id_v("t"@), pc_v('|')],
                panic_call_v(*d, i as int, name@, name_call_v("t"@)),
            ));
    assert(vv(*out) =~= o + into_fn_v(*d, i as int));
}

/// Emits the impl that holds every variant's accessors.
pub fn accessors_impl(d: &TypeDef) -> (r: Vec<Tok>)
    ensures
        vv(r) == accessors_impl_v(*d),
{
    let mut body: Vec<Tok> = Vec::new();
    proof {
        assert(toks_v(Seq::<Tok>::empty()) =~= Seq::<TokV>::empty());
    }
    let mut i: usize = 0;
    while i < d.variants.len()
        invariant
            i <= d.variants.len(),
            vv(body) == all_accessors_v(*d, i as int),
        decreases d.variants.len() - i,
    {
        let ghost b0 = vv(body);
        is_fn(&mut body, d, i);
        try_as_fn(&mut body, d, i, false);
        as_fn(&mut body, d, i);
        try_as_fn(&mut body, d, i, true);
        as_mut_fn(&mut body, d, i);
        try_into_fn(&mut body, d, i);
        into_fn(&mut body, d, i);
        assert(vv(body) =~= b0 + accessors_v(*d, i as int));
        i = i + 1;
    }
    let mut r = allow_dead();
    push_all(&mut r, &inherent_head(d));
    put_group(&mut r, Delim::Brace, body);
    assert(vv(r) =~= accessors_impl_v(*d));
    r
}

pub open spec fn froms_v(d: TypeDef, n: int) -> Seq<TokV>
    decreases n,
{
    if n <= 0 {
        Seq::empty()
    } else {
        froms_v(d, n - 1) + from_impl_v(d, n - 1)
    }
}

pub open spec fn reverses_v(d: TypeDef, n: int) -> Seq<TokV>
    decreases n,
{
    if n <= 0 {
        Seq::empty()
    } else {
        reverses_v(d, n - 1) + reverse_v(d, n - 1)
    }
}

/// Everything emitted for one definition, in order: the union declaration, the record
/// types (record form), the conversions into the union, the reverse conversions, the
/// introspection impl and the accessors.
pub open spec fn render_type_v(d: TypeDef) -> Seq<TokV> {
    let n = d.variants.len() as int;
    union_decl_v(d) + record_decls_v(d, d.records.len() as int) + froms_v(d, n) + reverses_v(d, n)
        + introspection_v(d) + accessors_impl_v(d)
}

/// Emits everything for one definition; see [`render_type_v`].
pub fn render_type(d: &TypeDef) -> (r: Vec<Tok>)
    ensures
        vv(r) == render_type_v(*d),
{
    let mut r = union_decl(d);
    let mut j: usize = 0;
    while j < d.records.len()
        invariant
            j <= d.records.len(),
            vv(r) == union_decl_v(*d) + record_decls_v(*d, j as int),
        decreases d.records.len() - j,
    {
        push_all(&mut r, &record_decl(d, j));
        assert(vv(r) =~= union_decl_v(*d) + record_decls_v(*d, j + 1));
        j = j + 1;
    }
    let ghost head = vv(r);
    let mut i: usize = 0;
    while i < d.variants.len()
        invariant
            i <= d.variants.len(),
            vv(r) == head + froms_v(*d, i as int),
        decreases d.variants.len() - i,
    {
        push_all(&mut r, &from_impl(d, i));
        assert(vv(r) =~= head + froms_v(*d, i + 1));
        i = i + 1;
    }
    let names = type_params_from_generics(&d.generics);
    let ghost head2 = vv(r);
    let mut i: usize = 0;
    while i < d.variants.len()
        invariant
            i <= d.variants.len(),
            strings_v(names@) == param_names_of(d.generics.params@),
            vv(r) == head2 + reverses_v(*d, i as int),
        decreases d.variants.len() - i,
    {
        if !detect_uncovered_type(&names, &d.variants[i].payload) {
            push_all(&mut r, &try_from_impl(d, i));
        }
        assert(vv(r) =~= head2 + reverses_v(*d, i + 1));
        i = i + 1;
    }
    push_all(&mut r, &introspection(d));
    push_all(&mut r, &accessors_impl(d));
    assert(vv(r) =~= render_type_v(*d));
    r
}

} // verus!
