//! The method specialiser: every method of a template block becomes one body per
//! variant, either dispatched from one method or emitted as a family of methods.
use vstd::prelude::*;
use vstd::string::StringExecFns;
use crate::casing::{snake_name, snake_name_spec};
use crate::directives::{resolve_directives, resolve_spec};
use crate::emit::{brace_v, paren_v, payload_v, vname};
use crate::model::{ImplBlock, ImplItem, Method, TypeDef};
use crate::substitute::{
    ends_with, family_suffix, replace_idents, strip_end, strip_suffix, subst_seq, Rule, RulesV, Subst,
};
use crate::tokens::{
    colon2_v, copy_toks, fat_arrow_v, id_v, pc_v, push_all, put_colon2, put_fat_arrow, put_group,
    put_ident, put_name, put_punct, put_str_lit, quoted, toks_v, vv, Delim, Tok, TokV,
};

verus! {

broadcast use vstd::std_specs::vec::group_vec_axioms, vstd::seq::group_seq_axioms;

/// The name that `VariantT` stands for: the variant's name followed by `T`.
pub open spec fn variant_t_v(v: Seq<char>) -> Seq<char> {
    v + "T"@
}

/// The substitution applied to a method body for variant `i`: the receiver is renamed to
/// `_summum_self`, `super` stands for the receiver as a whole, `VariantT` and `InnerT`
/// stand for the variant's type name and payload type; identifiers ending in
/// `_inner_var` are renamed after the variant.
pub open spec fn body_rules_v(d: TypeDef, i: int) -> RulesV {
    seq![
        ("self"@, seq![id_v("_summum_self"@)]),
        ("super"@, seq![id_v("self"@)]),
        ("VariantT"@, seq![id_v(variant_t_v(vname(d, i)))]),
        ("InnerT"@, payload_v(d, i)),
    ]
}

/// The substitution applied to a family method's signature for variant `i`, together
/// with the family rule for identifiers ending in `_inner_var`.
pub open spec fn sig_rules_v(d: TypeDef, i: int) -> RulesV {
    seq![("VariantT"@, seq![id_v(variant_t_v(vname(d, i)))]), ("InnerT"@, payload_v(d, i))]
}

/// The body of method `m` specialised for variant `i`, as one braced group, or the
/// diagnostic its directives gave.
pub open spec fn variant_block_v(d: TypeDef, i: int, m: Method) -> Result<Seq<TokV>, Seq<char>> {
    let replaced = subst_seq(seq![brace_v(vv(m.body))], body_rules_v(d, i), Some(vname(d, i)));
    match resolve_spec(replaced, vname(d, i)) {
        Ok(r) => Ok(seq![brace_v(r)]),
        Err(e) => Err(e),
    }
}

/// The specialised bodies of the first `n` variants, or the first diagnostic.
pub open spec fn blocks_v(d: TypeDef, m: Method, n: int) -> Result<Seq<Seq<TokV>>, Seq<char>>
    decreases n,
{
    if n <= 0 {
        Ok(Seq::empty())
    } else {
        match blocks_v(d, m, n - 1) {
            Err(e) => Err(e),
            Ok(bs) => match variant_block_v(d, n - 1, m) {
                Err(e) => Err(e),
                Ok(b) => Ok(bs.push(b)),
            },
        }
    }
}

/// Whether a method is a family template: its name ends in `_inner_var`.
pub open spec fn is_family(m: Method) -> bool {
    ends_with(m.name@, family_suffix())
}

/// The name of the family member of variant `v`.
pub open spec fn family_name_v(m: Method, v: Seq<char>) -> Seq<char> {
    snake_name_spec(strip_end(m.name@, family_suffix()), v)
}

/// `Self::V(_summum_self) => block`
pub open spec fn arm_v(d: TypeDef, i: int, block: Seq<TokV>) -> Seq<TokV> {
    seq![id_v("Self"@)] + colon2_v() + seq![
        id_v(vname(d, i)),
        paren_v(seq![id_v("_summum_self"@)]),
    ] + fat_arrow_v() + block
}

pub open spec fn wrong_variant_msg() -> Seq<char> {
    "`{}::{}` method must be called with corresponding inner type"@
}

/// The guarded body of a family member with a receiver: `{ match self {
/// Self::V(_summum_self) => block, _ => panic!(..) } }`.
pub open spec fn guarded_v(d: TypeDef, ty: Seq<char>, i: int, fname: Seq<char>, block: Seq<TokV>) -> Seq<TokV> {
    seq![
        brace_v(
            seq![
                id_v("match"@),
                id_v("self"@),
                brace_v(
                    arm_v(d, i, block) + seq![pc_v(','), id_v("_"@)] + fat_arrow_v() + seq![
                        id_v("panic"@),
                        pc_v('!'),
                        paren_v(
                            seq![
                                TokV::Lit(quoted(wrong_variant_msg())),
                                pc_v(','),
                                TokV::Lit(quoted(ty)),
                                pc_v(','),
                                TokV::Lit(quoted(fname)),
                            ],
                        ),
                    ],
                ),
            ],
        ),
    ]
}

/// The family member of variant `i`.
pub open spec fn family_fn_v(d: TypeDef, ty: Seq<char>, m: Method, i: int, block: Seq<TokV>) -> Seq<TokV> {
    let fname = family_name_v(m, vname(d, i));
    vv(m.head) + seq![id_v(fname)] + subst_seq(vv(m.sig), sig_rules_v(d, i), Some(vname(d, i))) + if m.has_receiver {
        guarded_v(d, ty, i, fname, block)
    } else {
        block
    }
}

pub open spec fn family_fns_v(d: TypeDef, ty: Seq<char>, m: Method, bs: Seq<Seq<TokV>>, n: int) -> Seq<TokV>
    decreases n,
{
    if n <= 0 {
        Seq::empty()
    } else {
        family_fns_v(d, ty, m, bs, n - 1) + family_fn_v(d, ty, m, n - 1, bs[n - 1])
    }
}

pub open spec fn arms_v(d: TypeDef, bs: Seq<Seq<TokV>>, n: int) -> Seq<TokV>
    decreases n,
{
    if n <= 0 {
        Seq::empty()
    } else if n == 1 {
        arm_v(d, 0, bs[0])
    } else {
        arms_v(d, bs, n - 1) + seq![pc_v(',')] + arm_v(d, n - 1, bs[n - 1])
    }
}

/// The dispatching method: its own signature, and a body that matches on the receiver
/// with one arm per variant.
pub open spec fn dispatch_fn_v(d: TypeDef, m: Method, bs: Seq<Seq<TokV>>) -> Seq<TokV> {
    vv(m.head) + seq![id_v(m.name@)] + vv(m.sig) + seq![
        brace_v(
            seq![
                id_v("match"@),
                id_v("self"@),
                brace_v(arms_v(d, bs, d.variants.len() as int)),
            ],
        ),
    ]
}

/// What one item of a block becomes.
pub open spec fn item_out_v(d: TypeDef, ty: Seq<char>, it: ImplItem) -> Result<Seq<TokV>, Seq<char>> {
    match it {
        ImplItem::Other(t) => Ok(vv(t)),
        ImplItem::Method(m) => match blocks_v(d, m, d.variants.len() as int) {
            Err(e) => Err(e),
            Ok(bs) => Ok(
                if is_family(m) {
                    family_fns_v(d, ty, m, bs, d.variants.len() as int)
                } else {
                    dispatch_fn_v(d, m, bs)
                },
            ),
        },
    }
}

pub open spec fn items_out_v(d: TypeDef, b: ImplBlock, n: int) -> Result<Seq<TokV>, Seq<char>>
    decreases n,
{
    if n <= 0 {
        Ok(Seq::empty())
    } else {
        match items_out_v(d, b, n - 1) {
            Err(e) => Err(e),
            Ok(s) => match item_out_v(d, b.target@, b.items@[n - 1]) {
                Err(e) => Err(e),
                Ok(t) => Ok(s + t),
            },
        }
    }
}

/// What a template block becomes for the definition `d`: its attributes and header,
/// then its items, or the first diagnostic a directive gave.
pub open spec fn impl_out_v(d: TypeDef, b: ImplBlock) -> Result<Seq<TokV>, Seq<char>> {
    match items_out_v(d, b, b.items.len() as int) {
        Err(e) => Err(e),
        Ok(body) => Ok(vv(b.attrs) + vv(b.head) + seq![brace_v(body)]),
    }
}

fn one_ident(s: &String) -> (r: Vec<Tok>)
    ensures
        vv(r) == seq![id_v(s@)],
{
    let mut r: Vec<Tok> = Vec::new();
    put_name(&mut r, s);
    proof {
        assert(toks_v(Seq::<Tok>::empty()) =~= Seq::<TokV>::empty());
    }
    assert(vv(r) =~= seq![id_v(s@)]);
    r
}

fn variant_t(v: &String) -> (r: String)
    ensures
        r@ == variant_t_v(v@),
{
    let mut r = v.clone();
    r.append("T");
    r
}

fn body_subst(d: &TypeDef, i: usize) -> (r: Subst)
    requires
        i < d.variants.len(),
    ensures
        r@.0 == body_rules_v(*d, i as int),
        r@.1 == Some(vname(*d, i as int)),
{
    let mut rules: Vec<Rule> = Vec::new();
    rules.push(Rule { name: String::from_str("self"), with: one_ident(&String::from_str("_summum_self")) });
    rules.push(Rule { name: String::from_str("super"), with: one_ident(&String::from_str("self")) });
    rules.push(Rule { name: String::from_str("VariantT"), with: one_ident(&variant_t(&d.variants[i].name)) });
    rules.push(Rule { name: String::from_str("InnerT"), with: copy_toks(&d.variants[i].payload) });
    let r = Subst { rules, family: Some(d.variants[i].name.clone()) };
    assert(r@.0 =~= body_rules_v(*d, i as int));
    r
}

fn sig_subst(d: &TypeDef, i: usize) -> (r: Subst)
    requires
        i < d.variants.len(),
    ensures
        r@.0 == sig_rules_v(*d, i as int),
        r@.1 == Some(vname(*d, i as int)),
{
    let mut rules: Vec<Rule> = Vec::new();
    rules.push(Rule { name: String::from_str("VariantT"), with: one_ident(&variant_t(&d.variants[i].name)) });
    rules.push(Rule { name: String::from_str("InnerT"), with: copy_toks(&d.variants[i].payload) });
    let r = Subst { rules, family: Some(d.variants[i].name.clone()) };
    assert(r@.0 =~= sig_rules_v(*d, i as int));
    r
}

/// Specialises the body of `m` for variant `i`.
pub fn variant_block(d: &TypeDef, i: usize, m: &Method) -> (r: Result<Vec<Tok>, String>)
    requires
        i < d.variants.len(),
    ensures
        match r {
            Ok(v) => variant_block_v(*d, i as int, *m) == Ok::<Seq<TokV>, Seq<char>>(vv(v)),
            Err(e) => variant_block_v(*d, i as int, *m) == Err::<Seq<TokV>, Seq<char>>(e@),
        },
{
    let mut whole: Vec<Tok> = Vec::new();
    put_group(&mut whole, Delim::Brace, copy_toks(&m.body));
    proof {
        assert(toks_v(Seq::<Tok>::empty()) =~= Seq::<TokV>::empty());
    }
    assert(vv(whole) =~= seq![brace_v(vv(m.body))]);
    let sub = body_subst(d, i);
    let replaced = replace_idents(&whole, &sub);
    match resolve_directives(&replaced, &d.variants[i].name) {
        Err(e) => Err(e),
        Ok(v) => {
            let mut r: Vec<Tok> = Vec::new();
            put_group(&mut r, Delim::Brace, v);
            assert(vv(r) =~= seq![brace_v(vv(v))]);
            Ok(r)
        },
    }
}

proof fn lemma_blocks_len(d: TypeDef, m: Method, n: int)
    requires
        0 <= n,
        blocks_v(d, m, n) is Ok,
    ensures
        blocks_v(d, m, n)->Ok_0.len() == n,
    decreases n,
{
    if n > 0 {
        lemma_blocks_len(d, m, n - 1);
    }
}

proof fn lemma_blocks_err(d: TypeDef, m: Method, k: int, n: int)
    requires
        0 <= k <= n,
        blocks_v(d, m, k) is Err,
    ensures
        blocks_v(d, m, n) == blocks_v(d, m, k),
    decreases n - k,
{
    if k < n {
        lemma_blocks_err(d, m, k, n - 1);
    }
}

/// The specialised bodies of `m` for every variant, or the first diagnostic.
fn blocks(d: &TypeDef, m: &Method) -> (r: Result<Vec<Vec<Tok>>, String>)
    ensures
        match r {
            Ok(v) => blocks_v(*d, *m, d.variants.len() as int) == Ok::<Seq<Seq<TokV>>, Seq<char>>(
                v@.map_values(|b: Vec<Tok>| vv(b)),
            ),
            Err(e) => blocks_v(*d, *m, d.variants.len() as int) == Err::<Seq<Seq<TokV>>, Seq<char>>(e@),
        },
{
    let mut out: Vec<Vec<Tok>> = Vec::new();
    let mut i: usize = 0;
    assert(out@.map_values(|b: Vec<Tok>| vv(b)) =~= Seq::<Seq<TokV>>::empty());
    while i < d.variants.len()
        invariant
            i <= d.variants.len(),
            blocks_v(*d, *m, i as int) == Ok::<Seq<Seq<TokV>>, Seq<char>>(out@.map_values(|b: Vec<Tok>| vv(b))),
        decreases d.variants.len() - i,
    {
        match variant_block(d, i, m) {
            Err(e) => {
                proof {
                    lemma_blocks_err(*d, *m, i + 1, d.variants.len() as int);
                }
                return Err(e);
            },
            Ok(b) => {
                let ghost o = out@;
                out.push(b);
                assert(out@.map_values(|b: Vec<Tok>| vv(b)) =~= o.map_values(|b: Vec<Tok>| vv(b)).push(vv(b)));
            },
        }
        i = i + 1;
    }
    Ok(out)
}

fn arm(out: &mut Vec<Tok>, d: &TypeDef, i: usize, block: &Vec<Tok>)
    requires
        i < d.variants.len(),
    ensures
        vv(*final(out)) == vv(*old(out)) + arm_v(*d, i as int, vv(*block)),
{
    let ghost o = vv(*out);
    put_ident(out, "Self");
    put_colon2(out);
    put_name(out, &d.variants[i].name);
    put_group(out, Delim::Paren, one_ident(&String::from_str("_summum_self")));
    put_fat_arrow(out);
    push_all(out, block);
    assert(vv(*out) =~= o + arm_v(*d, i as int, vv(*block)));
}

fn guarded(d: &TypeDef, ty: &String, i: usize, fname: &String, block: &Vec<Tok>) -> (r: Vec<Tok>)
    requires
        i < d.variants.len(),
    ensures
        vv(r) == guarded_v(*d, ty@, i as int, fname@, vv(*block)),
{
    proof {
        assert(toks_v(Seq::<Tok>::empty()) =~= Seq::<TokV>::empty());
    }
    let mut args: Vec<Tok> = Vec::new();
    put_str_lit(&mut args, "`{}::{}` method must be called with corresponding inner type");
    put_punct(&mut args, ',');
    put_str_lit(&mut args, ty.as_str());
    put_punct(&mut args, ',');
    put_str_lit(&mut args, fname.as_str());
    let ghost argv = vv(args);
    let mut arms: Vec<Tok> = Vec::new();
    arm(&mut arms, d, i, block);
    put_punct(&mut arms, ',');
    put_ident(&mut arms, "_");
    put_fat_arrow(&mut arms);
    put_ident(&mut arms, "panic");
    put_punct(&mut arms, '!');
    put_group(&mut arms, Delim::Paren, args);
    let ghost armv = vv(arms);
    assert(armv =~= arm_v(*d, i as int, vv(*block)) + seq![pc_v(','), id_v("_"@)] + fat_arrow_v() + seq![
                        id_v("panic"@),
                        pc_v('!'),
                        paren_v(argv),
                    ]);
    let mut m: Vec<Tok> = Vec::new();
    put_ident(&mut m, "match");
    put_ident(&mut m, "self");
    put_group(&mut m, Delim::Brace, arms);
    let ghost mv = vv(m);
    let mut r: Vec<Tok> = Vec::new();
    put_group(&mut r, Delim::Brace, m);
    assert(argv =~= seq![
                                TokV::Lit(quoted(wrong_variant_msg())),
                                pc_v(','),
                                TokV::Lit(quoted(ty@)),
                                pc_v(','),
                                TokV::Lit(quoted(fname@)),
                            ]);
    assert(mv =~= seq![id_v("match"@), id_v("self"@), brace_v(armv)]);
    assert(vv(r) =~= guarded_v(*d, ty@, i as int, fname@, vv(*block)));
    r
}

fn family_fn(out: &mut Vec<Tok>, d: &TypeDef, ty: &String, m: &Method, base: &String, i: usize, block: &Vec<Tok>)
    requires
        i < d.variants.len(),
        is_family(*m),
        base@ == strip_end(m.name@, family_suffix()),
    ensures
        vv(*final(out)) == vv(*old(out)) + family_fn_v(*d, ty@, *m, i as int, vv(*block)),
{
    let ghost o = vv(*out);
    let fname = snake_name(base.as_str(), d.variants[i].name.as_str());
    push_all(out, &m.head);
    put_name(out, &fname);
    let sig = replace_idents(&m.sig, &sig_subst(d, i));
    push_all(out, &sig);
    if m.has_receiver {
        push_all(out, &guarded(d, ty, i, &fname, block));
    } else {
        push_all(out, block);
    }
    assert(vv(*out) =~= o + family_fn_v(*d, ty@, *m, i as int, vv(*block)));
}

fn dispatch_fn(d: &TypeDef, m: &Method, bs: &Vec<Vec<Tok>>) -> (r: Vec<Tok>)
    requires
        bs.len() == d.variants.len(),
    ensures
        vv(r) == dispatch_fn_v(*d, *m, bs@.map_values(|b: Vec<Tok>| vv(b))),
{
    let ghost bsv = bs@.map_values(|b: Vec<Tok>| vv(b));
    let mut arms: Vec<Tok> = Vec::new();
    proof {
        assert(toks_v(Seq::<Tok>::empty()) =~= Seq::<TokV>::empty());
    }
    let mut i: usize = 0;
    while i < bs.len()
        invariant
            bs.len() == d.variants.len(),
            bsv == bs@.map_values(|b: Vec<Tok>| vv(b)),
            i <= bs.len(),
            vv(arms) == arms_v(*d, bsv, i as int),
        decreases bs.len() - i,
    {
        if i > 0 {
            put_punct(&mut arms, ',');
        }
        arm(&mut arms, d, i, &bs[i]);
        assert(vv(arms) =~= arms_v(*d, bsv, i + 1));
        i = i + 1;
    }
    let ghost av = vv(arms);
    let mut mt: Vec<Tok> = Vec::new();
    put_ident(&mut mt, "match");
    put_ident(&mut mt, "self");
    put_group(&mut mt, Delim::Brace, arms);
    assert(vv(mt) =~= seq![id_v("match"@), id_v("self"@), brace_v(av)]);
    let mut r: Vec<Tok> = Vec::new();
    push_all(&mut r, &m.head);
    put_name(&mut r, &m.name);
    push_all(&mut r, &m.sig);
    put_group(&mut r, Delim::Brace, mt);
    assert(vv(r) =~= dispatch_fn_v(*d, *m, bsv));
    r
}

/// What one method becomes; see [`item_out_v`].
pub fn render_method(d: &TypeDef, ty: &String, m: &Method) -> (r: Result<Vec<Tok>, String>)
    ensures
        match r {
            Ok(v) => item_out_v(*d, ty@, ImplItem::Method(*m)) == Ok::<Seq<TokV>, Seq<char>>(vv(v)),
            Err(e) => item_out_v(*d, ty@, ImplItem::Method(*m)) == Err::<Seq<TokV>, Seq<char>>(e@),
        },
{
    let bs = match blocks(d, m) {
        Err(e) => {
            return Err(e);
        },
        Ok(bs) => bs,
    };
    let ghost bsv = bs@.map_values(|b: Vec<Tok>| vv(b));
    proof {
        lemma_blocks_len(*d, *m, d.variants.len() as int);
    }
    assert(bsv.len() == d.variants.len());
    match strip_suffix(&m.name, "_inner_var") {
        None => Ok(dispatch_fn(d, m, &bs)),
        Some(base) => {
            let mut r: Vec<Tok> = Vec::new();
            proof {
                assert(toks_v(Seq::<Tok>::empty()) =~= Seq::<TokV>::empty());
            }
            let mut i: usize = 0;
            while i < bs.len()
                invariant
                    bs.len() == d.variants.len(),
                    bsv == bs@.map_values(|b: Vec<Tok>| vv(b)),
                    is_family(*m),
                    base@ == strip_end(m.name@, family_suffix()),
                    i <= bs.len(),
                    vv(r) == family_fns_v(*d, ty@, *m, bsv, i as int),
                decreases bs.len() - i,
            {
                family_fn(&mut r, d, ty, m, &base, i, &bs[i]);
                i = i + 1;
            }
            Ok(r)
        },
    }
}

proof fn lemma_items_err(d: TypeDef, b: ImplBlock, k: int, n: int)
    requires
        0 <= k <= n,
        items_out_v(d, b, k) is Err,
    ensures
        items_out_v(d, b, n) == items_out_v(d, b, k),
    decreases n - k,
{
    if k < n {
        lemma_items_err(d, b, k, n - 1);
    }
}

/// What a template block becomes for the definition `d`; see [`impl_out_v`]. An error is
/// the diagnostic a directive gave.
pub fn render_impl(d: &TypeDef, b: &ImplBlock) -> (r: Result<Vec<Tok>, String>)
    ensures
        match r {
            Ok(v) => impl_out_v(*d, *b) == Ok::<Seq<TokV>, Seq<char>>(vv(v)),
            Err(e) => impl_out_v(*d, *b) == Err::<Seq<TokV>, Seq<char>>(e@),
        },
{
    let mut body: Vec<Tok> = Vec::new();
    proof {
        assert(toks_v(Seq::<Tok>::empty()) =~= Seq::<TokV>::empty());
    }
    let mut k: usize = 0;
    while k < b.items.len()
        invariant
            k <= b.items.len(),
            items_out_v(*d, *b, k as int) == Ok::<Seq<TokV>, Seq<char>>(vv(body)),
        decreases b.items.len() - k,
    {
        match &b.items[k] {
            ImplItem::Other(t) => {
                push_all(&mut body, t);
            },
            ImplItem::Method(m) => {
                match render_method(d, &b.target, m) {
                    Err(e) => {
                        proof {
                            lemma_items_err(*d, *b, k + 1, b.items.len() as int);
                        }
                        return Err(e);
                    },
                    Ok(t) => {
                        push_all(&mut body, &t);
                    },
                }
            },
        }
        k = k + 1;
    }
    let ghost bv = vv(body);
    let mut r: Vec<Tok> = Vec::new();
    push_all(&mut r, &b.attrs);
    push_all(&mut r, &b.head);
    put_group(&mut r, Delim::Brace, body);
    assert(vv(r) =~= vv(b.attrs) + vv(b.head) + seq![brace_v(bv)]);
    Ok(r)
}

} // verus!
