//! The syntax parser: the three surface forms of a union definition, and method-template
//! blocks, read from a token sequence.
use vstd::prelude::*;
use vstd::string::StrSliceExecFns;
use vstd::string::StringExecFns;
use crate::casing::{to_upper_camel, upper_camel_of};
use crate::emit::{param_names_of, type_params_from_generics};
use crate::model::{
    has_binding, wf_def, Binding, Field, GenericParam, Generics,
    ImplBlock, ImplItem, Method, RecordVariant, TypeDef, Variant,
};
use crate::records::record_name;
use crate::text::{text_seq, tokens_text};
use crate::grammar::{clamp, trait_for_from, SynErr, 
    BindingV, FieldV, GenericParamV, ImplBlockV, ImplItemV, ItemsV, RecordVariantV, TypeDefV, VariantV, angle_close_from, attrs_end, binding_v, binding_view, bindings_cover, bindings_v, binds, block_item_v, block_items_from, block_view, def_v, def_view, default_start_from, enum_case_v, enum_cases_v, enum_form_v, field_colon_from, field_v, field_view, fields_v, first_ident_from, generic_param_v, generics_v, gp_view, ident_v, impl_form_v, is_group_v, is_punct_v, item_end_from, item_view, items_from, items_view, list_cases, list_form_v, names_distinct, next_brace_from, params_v, params_view, parse_v, plain_def_v, record_variants_v, record_view, records_from, run_end, struct_form_v, struct_tail_v, type_param_names_v, variant_view, variants_view, vis_end,
};
use crate::tokens::{
    copy_tok, copy_toks, id_v, is_ident, is_punct, lemma_toks_v, lemma_toks_v_push, push_all, tok_v, toks_v, vv, Delim, Tok, TokV,
};

verus! {

broadcast use vstd::std_specs::vec::group_vec_axioms, vstd::seq::group_seq_axioms;

/// Malformed surface syntax.
pub struct SyntaxError {
    pub message: String,
    /// The index, among the unit's tokens, of the first token of the item that failed.
    pub at: usize,
}

fn fail<T>(m: &str) -> (r: Result<T, SyntaxError>)
    ensures
        r matches Err(e) && e.message@ == m@,
{
    Err(SyntaxError { message: String::from_str(m), at: 0 })
}

fn fail_at<T>(m: &str, at: usize) -> (r: Result<T, SyntaxError>)
    ensures
        r matches Err(e) && e.message@ == m@ && e.at == at,
{
    Err(SyntaxError { message: String::from_str(m), at })
}

/// The same error, located at `at`.
fn relocate<T>(e: SyntaxError, at: usize) -> (r: Result<T, SyntaxError>)
    ensures
        r matches Err(x) && x.message@ == e.message@ && x.at == at,
{
    Err(SyntaxError { message: e.message, at })
}

/// `i`, or the last index of `n` tokens where `i` is past the end.
fn clamp_idx(n: usize, i: usize) -> (r: usize)
    requires
        n > 0,
    ensures
        r < n,
        r as int == clamp(n as int, i as int),
{
    if i < n {
        i
    } else {
        n - 1
    }
}

/// A type path with generic arguments written without `::` gets it (`Vec<T>` becomes
/// `Vec::<T>`); any other type is kept.
pub open spec fn canonical_v(t: Seq<TokV>) -> Seq<TokV> {
    if t.len() >= 2 && t[0] is Ident && t[0] != id_v("dyn"@) && t[0] != id_v("impl"@)
        && t[1] is Punct && t[1]->Punct_0 == '<' {
        seq![t[0], TokV::Punct(':', true), TokV::Punct(':', false)] + t.subrange(1, t.len() as int)
    } else {
        t
    }
}

/// The canonical form of a payload type; see [`canonical_v`].
pub fn canonicalize_type_path(t: &Vec<Tok>) -> (r: Vec<Tok>)
    ensures
        vv(r) == canonical_v(vv(*t)),
{
    proof {
        lemma_toks_v(t@);
    }
    if t.len() >= 2 && !is_ident(&t[0], "dyn") && !is_ident(&t[0], "impl") && is_punct(&t[1], '<') {
        match &t[0] {
            Tok::Ident(_) => {
                let mut r: Vec<Tok> = Vec::new();
                r.push(copy_tok(&t[0]));
                r.push(Tok::Punct(':', true));
                r.push(Tok::Punct(':', false));
                let rest = slice(t, 1, t.len());
                proof {
                    reveal_with_fuel(toks_v, 4);
                }
                let ghost head = vv(r);
                assert(head =~= seq![tok_v(t@[0]), TokV::Punct(':', true), TokV::Punct(':', false)]);
                push_all(&mut r, &rest);
                assert(vv(r) =~= canonical_v(vv(*t)));
                return r;
            },
            _ => {},
        }
    }
    copy_toks(t)
}

/// A copy of `s[a..b]`.
pub fn slice(s: &Vec<Tok>, a: usize, b: usize) -> (r: Vec<Tok>)
    requires
        a <= b <= s.len(),
    ensures
        vv(r) == vv(*s).subrange(a as int, b as int),
{
    proof {
        lemma_toks_v(s@);
    }
    let mut r: Vec<Tok> = Vec::new();
    let mut k: usize = a;
    assert(toks_v(Seq::<Tok>::empty()) =~= vv(*s).subrange(a as int, a as int));
    while k < b
        invariant
            a <= k <= b <= s.len(),
            toks_v(s@).len() == s.len(),
            forall|j: int| 0 <= j < s.len() ==> #[trigger] toks_v(s@)[j] == tok_v(s@[j]),
            vv(r) == vv(*s).subrange(a as int, k as int),
        decreases b - k,
    {
        let t = copy_tok(&s[k]);
        proof {
            lemma_toks_v_push(r@, t);
        }
        r.push(t);
        assert(vv(r) =~= vv(*s).subrange(a as int, k + 1));
        k = k + 1;
    }
    r
}

/// The depth of angle brackets after token `i`, given the depth `depth` before it. A
/// `>` that closes `->` does not count, nor one with no `<` open.
pub open spec fn angle_after_v(s: Seq<TokV>, i: int, depth: nat) -> nat {
    if s[i] is Punct && s[i]->Punct_0 == '<' {
        depth + 1
    } else if s[i] is Punct && s[i]->Punct_0 == '>' {
        if (i > 0 && s[i - 1] == TokV::Punct('-', true)) || depth == 0 {
            depth
        } else {
            (depth - 1) as nat
        }
    } else {
        depth
    }
}

/// The pieces of `s` from `i` on, the current piece starting at `start`, at angle depth
/// `depth`.
pub open spec fn split_from(s: Seq<TokV>, sep: char, i: int, start: int, depth: nat) -> Seq<Seq<TokV>>
    decreases s.len() - i,
{
    if i < 0 || i >= s.len() {
        if start < s.len() {
            seq![s.subrange(start, s.len() as int)]
        } else {
            Seq::empty()
        }
    } else if depth == 0 && s[i] is Punct && s[i]->Punct_0 == sep {
        seq![s.subrange(start, i)] + split_from(s, sep, i + 1, i + 1, depth)
    } else {
        split_from(s, sep, i + 1, start, angle_after_v(s, i, depth))
    }
}

/// The pieces of `s` between separators `sep` that stand outside angle brackets; a
/// trailing separator ends the last piece.
pub open spec fn split_top_v(s: Seq<TokV>, sep: char) -> Seq<Seq<TokV>> {
    split_from(s, sep, 0, 0, 0)
}

pub open spec fn pieces_v(v: Seq<Vec<Tok>>) -> Seq<Seq<TokV>> {
    v.map_values(|p: Vec<Tok>| vv(p))
}

fn angle_after(s: &Vec<Tok>, i: usize, depth: usize) -> (r: usize)
    requires
        i < s.len(),
        depth <= i,
    ensures
        r <= i + 1,
        r == angle_after_v(vv(*s), i as int, depth as nat),
{
    proof {
        lemma_toks_v(s@);
    }
    match &s[i] {
        Tok::Punct('<', _) => depth + 1,
        Tok::Punct('>', _) => {
            let arrow = i > 0 && match &s[i - 1] {
                Tok::Punct('-', true) => true,
                _ => false,
            };
            if i > 0 {
                assert(vv(*s)[i - 1] == tok_v(s@[i - 1]));
            }
            if arrow || depth == 0 {
                depth
            } else {
                depth - 1
            }
        },
        _ => depth,
    }
}

/// The pieces of `s` between separators; see [`split_top_v`].
fn split_top(s: &Vec<Tok>, sep: char) -> (r: Vec<Vec<Tok>>)
    ensures
        pieces_v(r@) == split_top_v(vv(*s), sep),
{
    let ghost sv = vv(*s);
    proof {
        lemma_toks_v(s@);
    }
    let mut out: Vec<Vec<Tok>> = Vec::new();
    let mut start: usize = 0;
    let mut depth: usize = 0;
    let mut i: usize = 0;
    assert(pieces_v(out@) =~= Seq::<Seq<TokV>>::empty());
    assert(split_top_v(sv, sep) =~= pieces_v(out@) + split_from(sv, sep, 0, 0, 0));
    while i < s.len()
        invariant
            sv == vv(*s),
            sv.len() == s.len(),
            forall|j: int| 0 <= j < s.len() ==> #[trigger] sv[j] == tok_v(s@[j]),
            start <= i <= s.len(),
            depth <= i,
            split_top_v(sv, sep) == pieces_v(out@) + split_from(sv, sep, i as int, start as int, depth as nat),
        decreases s.len() - i,
    {
        assert(sv[i as int] == tok_v(s@[i as int]));
        if depth == 0 && is_punct(&s[i], sep) {
            let p = slice(s, start, i);
            let ghost o = out@;
            out.push(p);
            assert(pieces_v(out@) =~= pieces_v(o).push(vv(p)));
            assert(pieces_v(out@) + split_from(sv, sep, i + 1, i + 1, depth as nat) =~= pieces_v(o) + (seq![
                sv.subrange(start as int, i as int),
            ] + split_from(sv, sep, i + 1, i + 1, depth as nat)));
            start = i + 1;
        } else {
            depth = angle_after(s, i, depth);
        }
        i = i + 1;
    }
    if start < s.len() {
        let p = slice(s, start, s.len());
        let ghost o = out@;
        out.push(p);
        assert(pieces_v(out@) =~= pieces_v(o).push(vv(p)));
    }
    assert(pieces_v(out@) =~= split_top_v(sv, sep));
    out
}

/// The index of the `>` that closes the `<` at `i`.
fn angle_close(s: &Vec<Tok>, i: usize) -> (r: Result<usize, SyntaxError>)
    requires
        i < s.len(),
    ensures
        r matches Ok(j) ==> i < j < s.len() && angle_close_from(vv(*s), i + 1, 1) == Some(j as int),
        r matches Err(e) ==> angle_close_from(vv(*s), i + 1, 1) is None && e.message@ == "unclosed `<`"@,
{
    proof {
        lemma_toks_v(s@);
    }
    let mut depth: usize = 1;
    let mut k: usize = i + 1;
    while k < s.len()
        invariant
            i < k <= s.len(),
            1 <= depth <= k,
            vv(*s).len() == s.len(),
            angle_close_from(vv(*s), i + 1, 1) == angle_close_from(vv(*s), k as int, depth as nat),
        decreases s.len() - k,
    {
        let d = angle_after(s, k, depth);
        if d == 0 {
            return Ok(k);
        }
        depth = d;
        k = k + 1;
    }
    fail("unclosed `<`")
}

/// Where a generic parameter's default (`= X`, outside angle brackets) starts, or its
/// length where it has none.
fn default_start(p: &Vec<Tok>) -> (r: usize)
    ensures
        r <= p.len(),
        r == default_start_from(vv(*p), 0, 0),
{
    proof {
        lemma_toks_v(p@);
    }
    let mut depth: usize = 0;
    let mut i: usize = 0;
    while i < p.len()
        invariant
            i <= p.len(),
            depth <= i,
            vv(*p).len() == p.len(),
            forall|j: int| 0 <= j < p.len() ==> #[trigger] vv(*p)[j] == tok_v(p@[j]),
            default_start_from(vv(*p), 0, 0) == default_start_from(vv(*p), i as int, depth as nat),
        decreases p.len() - i,
    {
        assert(vv(*p)[i as int] == tok_v(p@[i as int]));
        if depth == 0 && is_punct(&p[i], '=') {
            return i;
        }
        depth = angle_after(p, i, depth);
        i = i + 1;
    }
    p.len()
}

fn generic_param(p: &Vec<Tok>) -> (r: Result<GenericParam, SyntaxError>)
    ensures
        r is Ok <==> generic_param_v(vv(*p)) is Ok,
        r matches Ok(g) ==> generic_param_v(vv(*p))->Ok_0 == gp_view(g),
        r matches Err(e) ==> generic_param_v(vv(*p))->Err_0 == e.message@,
{
    proof {
        lemma_toks_v(p@);
    }
    let end = default_start(p);
    if end == 0 {
        return fail("expected a generic parameter");
    }
    let decl = slice(p, 0, end);
    assert(vv(*p)[0] == tok_v(p@[0]));
    if is_punct(&p[0], '\'') && p.len() >= 2 {
        return Ok(GenericParam { decl, name: slice(p, 0, 2), is_type: false });
    }
    if is_ident(&p[0], "const") && p.len() >= 2 {
        return Ok(GenericParam { decl, name: slice(p, 1, 2), is_type: false });
    }
    match &p[0] {
        Tok::Ident(_) => Ok(GenericParam { decl, name: slice(p, 0, 1), is_type: true }),
        _ => fail("expected a generic parameter"),
    }
}

/// Reads an optional generic parameter list at `i`.
fn parse_generics(s: &Vec<Tok>, i: usize) -> (r: Result<(Vec<GenericParam>, usize), SyntaxError>)
    requires
        i <= s.len(),
    ensures
        r is Ok <==> generics_v(vv(*s), i as int) is Ok,
        r matches Ok((ps, j)) ==> i <= j <= s.len() && generics_v(vv(*s), i as int)->Ok_0 == (
            ps@.map_values(|g: GenericParam| gp_view(g)),
            j as int,
        ),
        r matches Err(e) ==> generics_v(vv(*s), i as int)->Err_0 == e.message@,
{
    proof {
        lemma_toks_v(s@);
    }
    let mut params: Vec<GenericParam> = Vec::new();
    if i < s.len() {
        assert(vv(*s)[i as int] == tok_v(s@[i as int]));
    }
    if i < s.len() && is_punct(&s[i], '<') {
        let close = angle_close(s, i)?;
        let inner = slice(s, i + 1, close);
        let pieces = split_top(&inner, ',');
        let ghost pv = split_top_v(vv(inner), ',');
        let mut k: usize = 0;
        assert(params@.map_values(|g: GenericParam| gp_view(g)) =~= Seq::<GenericParamV>::empty());
        while k < pieces.len()
            invariant
                k <= pieces.len(),
                pieces_v(pieces@) == pv,
                i < close < s.len(),
                i < vv(*s).len() && is_punct_v(vv(*s)[i as int], '<'),
                angle_close_from(vv(*s), i + 1, 1) == Some(close as int),
                pv == split_top_v(vv(*s).subrange(i + 1, close as int), ','),
                params_v(pv, k as int) == Ok::<Seq<GenericParamV>, Seq<char>>(
                    params@.map_values(|g: GenericParam| gp_view(g)),
                ),
            decreases pieces.len() - k,
        {
            assert(vv(pieces@[k as int]) == pv[k as int]);
            let p = match generic_param(&pieces[k]) {
                Ok(p) => p,
                Err(e) => {
                    proof {
                        assert(pv.len() == pieces.len());
                        assert(params_v(pv, k + 1) is Err);
                        lemma_params_err(pv, k + 1, pv.len() as int);
                    }
                    return Err(e);
                },
            };
            let ghost o = params@;
            params.push(p);
            assert(params@.map_values(|g: GenericParam| gp_view(g)) =~= o.map_values(|g: GenericParam| gp_view(g)).push(gp_view(p)));
            k = k + 1;
        }
        Ok((params, close + 1))
    } else {
        assert(params@.map_values(|g: GenericParam| gp_view(g)) =~= Seq::<GenericParamV>::empty());
        Ok((params, i))
    }
}

proof fn lemma_params_err(pieces: Seq<Seq<TokV>>, k: int, n: int)
    requires
        0 <= k <= n,
        params_v(pieces, k) is Err,
    ensures
        params_v(pieces, n) == params_v(pieces, k),
    decreases n - k,
{
    if k < n {
        lemma_params_err(pieces, k, n - 1);
    }
}

/// The index of the first braced group at or after `i`.
fn next_brace(s: &Vec<Tok>, i: usize) -> (r: Result<usize, SyntaxError>)
    requires
        i <= s.len(),
    ensures
        r matches Ok(j) ==> i <= j < s.len() && (s@[j as int] matches Tok::Group(Delim::Brace, _))
            && next_brace_from(vv(*s), i as int) == Some(j as int),
        r matches Err(e) ==> next_brace_from(vv(*s), i as int) is None && e.message@ == "expected `{`"@,
{
    proof {
        lemma_toks_v(s@);
    }
    let mut k: usize = i;
    while k < s.len()
        invariant
            i <= k <= s.len(),
            vv(*s).len() == s.len(),
            forall|j: int| 0 <= j < s.len() ==> #[trigger] vv(*s)[j] == tok_v(s@[j]),
            next_brace_from(vv(*s), i as int) == next_brace_from(vv(*s), k as int),
        decreases s.len() - k,
    {
        assert(vv(*s)[k as int] == tok_v(s@[k as int]));
        match &s[k] {
            Tok::Group(Delim::Brace, _) => {
                return Ok(k);
            },
            _ => {},
        }
        k = k + 1;
    }
    fail("expected `{`")
}

fn is_attr_at(s: &Vec<Tok>, k: usize) -> (r: bool)
    ensures
        r == (k + 1 < s.len() && is_punct_v(vv(*s)[k as int], '#') && is_group_v(
            vv(*s)[k + 1],
            Delim::Bracket,
        )),
{
    proof {
        lemma_toks_v(s@);
    }
    if k < s.len() && k + 1 < s.len() {
        assert(vv(*s)[k as int] == tok_v(s@[k as int]));
        assert(vv(*s)[k + 1] == tok_v(s@[k + 1]));
    }
    k < s.len() && k + 1 < s.len() && is_punct(&s[k], '#') && match &s[k + 1] {
        Tok::Group(Delim::Bracket, _) => true,
        _ => false,
    }
}

/// Reads outer attributes (`#[..]`) at `i`.
fn parse_attrs(s: &Vec<Tok>, i: usize) -> (r: (Vec<Tok>, usize))
    requires
        i <= s.len(),
    ensures
        i <= r.1 <= s.len(),
        r.1 == attrs_end(vv(*s), i as int),
        vv(r.0) == vv(*s).subrange(i as int, r.1 as int),
{
    proof {
        lemma_toks_v(s@);
    }
    let mut k: usize = i;
    while is_attr_at(s, k)
        invariant
            i <= k <= s.len(),
            vv(*s).len() == s.len(),
            attrs_end(vv(*s), i as int) == attrs_end(vv(*s), k as int),
        decreases s.len() - k,
    {
        k = k + 2;
    }
    (slice(s, i, k), k)
}

/// Reads an optional visibility at `i`.
fn parse_vis(s: &Vec<Tok>, i: usize) -> (r: (Vec<Tok>, usize))
    requires
        i <= s.len(),
    ensures
        i <= r.1 <= s.len(),
        r.1 == vis_end(vv(*s), i as int),
        vv(r.0) == vv(*s).subrange(i as int, r.1 as int),
{
    proof {
        lemma_toks_v(s@);
    }
    if i < s.len() && is_ident(&s[i], "pub") {
        assert(vv(*s)[i as int] == tok_v(s@[i as int]));
        if i + 1 < s.len() {
            assert(vv(*s)[i + 1] == tok_v(s@[i + 1]));
            match &s[i + 1] {
                Tok::Group(Delim::Paren, _) => {
                    return (slice(s, i, i + 2), i + 2);
                },
                _ => {},
            }
        }
        (slice(s, i, i + 1), i + 1)
    } else {
        if i < s.len() {
            assert(vv(*s)[i as int] == tok_v(s@[i as int]));
        }
        assert(vv(*s).subrange(i as int, i as int) =~= Seq::<TokV>::empty());
        (Vec::new(), i)
    }
}

fn ident_at(s: &Vec<Tok>, i: usize) -> (r: Result<String, SyntaxError>)
    ensures
        r matches Ok(n) ==> i < s.len() && s@[i as int] == Tok::Ident(n) && ident_v(vv(*s), i as int)
            == Some(n@),
        r matches Err(e) ==> ident_v(vv(*s), i as int) is None && e.message@ == "expected an identifier"@,
{
    proof {
        lemma_toks_v(s@);
    }
    if i < s.len() {
        assert(vv(*s)[i as int] == tok_v(s@[i as int]));
        match &s[i] {
            Tok::Ident(n) => {
                let c = n.clone();
                return Ok(c);
            },
            _ => {},
        }
    }
    fail("expected an identifier")
}

/// Rejects a definition whose variant names repeat.
fn check_unique(vs: &Vec<Variant>) -> (r: Result<(), SyntaxError>)
    ensures
        r is Ok <==> names_distinct(variants_view(vs@)),
        r is Ok ==> forall|i: int, j: int|
            0 <= i < j < vs.len() ==> #[trigger] vs@[i].name@ != #[trigger] vs@[j].name@,
        r matches Err(e) ==> e.message@ == "duplicate variant name"@,
{
    let ghost vw = variants_view(vs@);
    let mut j: usize = 0;
    while j < vs.len()
        invariant
            j <= vs.len(),
            vw == variants_view(vs@),
            forall|a: int, b: int| 0 <= a < b < j ==> #[trigger] vs@[a].name@ != #[trigger] vs@[b].name@,
        decreases vs.len() - j,
    {
        let mut a: usize = 0;
        while a < j
            invariant
                a <= j < vs.len(),
                vw == variants_view(vs@),
                forall|x: int, b: int| 0 <= x < b < j ==> #[trigger] vs@[x].name@ != #[trigger] vs@[b].name@,
                forall|x: int| 0 <= x < a ==> #[trigger] vs@[x].name@ != vs@[j as int].name@,
            decreases j - a,
        {
            if vs[a].name == vs[j].name {
                assert(vw[a as int].name == vw[j as int].name);
                return fail("duplicate variant name");
            }
            a = a + 1;
        }
        j = j + 1;
    }
    assert forall|a: int, b: int| 0 <= a < b < vw.len() implies #[trigger] vw[a].name != #[trigger] vw[b].name by {
        assert(vw[a].name == vs@[a].name@);
        assert(vw[b].name == vs@[b].name@);
    }
    Ok(())
}

fn plain_def(attrs: Vec<Tok>, vis: Vec<Tok>, name: String, generics: Generics, variants: Vec<Variant>) -> (r: Result<TypeDef, SyntaxError>)
    ensures
        r is Ok <==> plain_def_v(vv(attrs), vv(vis), name@, params_view(generics.params@), vv(generics.where_clause), variants_view(variants@)) is Ok,
        r matches Ok(d) ==> wf_def(d) && d.records.len() == 0 && d.variants@ == variants@ && d.name == name
            && def_view(d) == plain_def_v(vv(attrs), vv(vis), name@, params_view(generics.params@), vv(generics.where_clause), variants_view(variants@))->Ok_0,
        r matches Err(e) ==> plain_def_v(vv(attrs), vv(vis), name@, params_view(generics.params@), vv(generics.where_clause), variants_view(variants@))->Err_0 == e.message@,
{
    check_unique(&variants)?;
    let d = TypeDef {
        attrs,
        vis,
        name,
        generics,
        variants,
        runtime: Vec::new(),
        records: Vec::new(),
        fields: Vec::new(),
    };
    assert(def_view(d).runtime =~= Seq::<Seq<char>>::empty());
    assert(def_view(d).records =~= Seq::<RecordVariantV>::empty());
    assert(def_view(d).fields =~= Seq::<FieldV>::empty());
    Ok(d)
}

fn group_body(t: &Tok, d: Delim) -> (r: Option<&Vec<Tok>>)
    ensures
        r matches Some(b) ==> t@ == TokV::Group(d, vv(*b)),
        r is None ==> !(t@ is Group && t@->Group_0 == d),
{
    match t {
        Tok::Group(x, b) => {
            if *x == d {
                Some(b)
            } else {
                None
            }
        },
        _ => None,
    }
}

/// The name a list-form case gets from its type: the type's text in upper camel case.
fn name_from_type(ty: &Vec<Tok>) -> (r: Result<String, SyntaxError>)
    ensures
        r is Ok <==> upper_camel_of(text_seq(vv(*ty))).len() > 0,
        r matches Ok(n) ==> n@ == upper_camel_of(text_seq(vv(*ty))),
        r matches Err(e) ==> e.message@ == "cannot name a case after its type"@,
{
    let t = tokens_text(ty);
    let n = to_upper_camel(t.as_str());
    if n.as_str().unicode_len() == 0 {
        return fail("cannot name a case after its type");
    }
    Ok(n)
}

/// Reads the list form `type Name<..> = T1 [as A1] | T2 [as A2] | .. ;`, whose first
/// Reads the list form `type Name<..> = T1 [as A1] | T2 [as A2] | .. ;`, whose first
/// token is at `i`; see [`list_form_v`].
fn parse_list_form(s: &Vec<Tok>, i: usize, attrs: Vec<Tok>, vis: Vec<Tok>) -> (r: Result<(TypeDef, usize), SyntaxError>)
    requires
        i < s.len(),
    ensures
        r is Ok <==> list_form_v(vv(*s), i as int, vv(attrs), vv(vis)) is Ok,
        r matches Ok((d, j)) ==> i < j <= s.len() && wf_def(d) && list_form_v(vv(*s), i as int, vv(attrs), vv(vis))->Ok_0
            == (def_view(d), j as int),
        r matches Err(e) ==> list_form_v(vv(*s), i as int, vv(attrs), vv(vis))->Err_0 == (e.message@, e.at as int) && e.at < s.len(),
{
    proof {
        lemma_toks_v(s@);
    }
    let ghost sv = vv(*s);
    let n = s.len();
    let name = match ident_at(s, i + 1) {
        Ok(x) => x,
        Err(e) => {
            return relocate(e, clamp_idx(n, i + 1));
        },
    };
    let (params, k0) = match parse_generics(s, i + 2) {
        Ok(x) => x,
        Err(e) => {
            return relocate(e, clamp_idx(n, i + 2));
        },
    };
    if k0 < s.len() {
        assert(sv[k0 as int] == tok_v(s@[k0 as int]));
    }
    if !(k0 < s.len() && is_punct(&s[k0], '=')) {
        return fail_at("expected `=`", clamp_idx(n, k0));
    }
    let mut k = k0 + 1;
    let mut variants: Vec<Variant> = Vec::new();
    assert(variants_view(variants@) =~= Seq::<VariantV>::empty());
    while k < s.len()
        invariant
            i < k0 < k <= s.len(),
            n == s.len(),
            i + 1 < n,
            sv == vv(*s),
            sv.len() == s.len(),
            forall|j: int| 0 <= j < s.len() ==> #[trigger] sv[j] == tok_v(s@[j]),
            list_form_v(sv, i as int, vv(attrs), vv(vis)) == (match list_cases(sv, k0 + 1, Seq::empty()) {
                Err(e) => Err(e),
                Ok((vs, j)) => match plain_def_v(vv(attrs), vv(vis), name@, params_view(params@), Seq::empty(), vs) {
                    Err(e) => Err((e, i + 1)),
                    Ok(d) => Ok((d, j)),
                },
            }),
            list_cases(sv, k0 + 1, Seq::empty()) == list_cases(sv, k as int, variants_view(variants@)),
        decreases s.len() - k,
    {
        let start = k;
        let mut depth: usize = 0;
        while k < s.len() && !(depth == 0 && (is_ident(&s[k], "as") || is_punct(&s[k], '|')
            || is_punct(&s[k], ';')))
            invariant
                start <= k <= s.len(),
                depth <= k,
                sv == vv(*s),
                sv.len() == s.len(),
                forall|j: int| 0 <= j < s.len() ==> #[trigger] sv[j] == tok_v(s@[j]),
                run_end(sv, start as int, 0) == run_end(sv, k as int, depth as nat),
            decreases s.len() - k,
        {
            assert(sv[k as int] == tok_v(s@[k as int]));
            depth = angle_after(s, k, depth);
            k = k + 1;
        }
        if k < s.len() {
            assert(sv[k as int] == tok_v(s@[k as int]));
        }
        assert(run_end(sv, start as int, 0) == k);
        if k == start {
            return fail_at("expected a type", start);
        }
        if k >= s.len() {
            return fail_at("expected `;`", clamp_idx(n, k));
        }
        let ty = slice(s, start, k);
        let vname = if is_ident(&s[k], "as") {
            let nm = match ident_at(s, k + 1) {
                Ok(x) => x,
                Err(e) => {
                    return relocate(e, clamp_idx(n, k + 1));
                },
            };
            k = k + 2;
            nm
        } else {
            match name_from_type(&ty) {
                Ok(x) => x,
                Err(e) => {
                    return relocate(e, start);
                },
            }
        };
        let v = Variant { attrs: Vec::new(), name: vname, payload: canonicalize_type_path(&ty) };
        assert(variant_view(v).attrs =~= Seq::<TokV>::empty());
        let ghost v0 = variants@;
        variants.push(v);
        assert(variants_view(variants@) =~= variants_view(v0).push(variant_view(v)));
        if k < s.len() {
            assert(sv[k as int] == tok_v(s@[k as int]));
        }
        if k < s.len() && is_punct(&s[k], ';') {
            let d = match plain_def(attrs, vis, name, Generics { params, where_clause: Vec::new() }, variants) {
                Ok(d) => d,
                Err(e) => {
                    return relocate(e, i + 1);
                },
            };
            return Ok((d, k + 1));
        }
        if !(k < s.len() && is_punct(&s[k], '|')) {
            return fail_at("expected `|` or `;`", clamp_idx(n, k));
        }
        k = k + 1;
    }
    fail_at("expected `;`", clamp_idx(n, k))
}

/// Reads one case `attrs Name(Type)` of a declared-case form; see [`enum_case_v`].
fn enum_case(seg: &Vec<Tok>) -> (r: Result<Variant, SyntaxError>)
    ensures
        r is Ok <==> enum_case_v(vv(*seg)) is Ok,
        r matches Ok(v) ==> enum_case_v(vv(*seg))->Ok_0 == variant_view(v),
        r matches Err(e) ==> enum_case_v(vv(*seg))->Err_0 == e.message@,
{
    proof {
        lemma_toks_v(seg@);
    }
    let (vattrs, p) = parse_attrs(seg, 0);
    let vname = ident_at(seg, p)?;
    if seg.len() - p != 2 {
        return fail("each case holds one payload type in parentheses");
    }
    assert(vv(*seg)[p + 1] == tok_v(seg@[p + 1]));
    let inner = match group_body(&seg[p + 1], Delim::Paren) {
        Some(x) => x,
        None => {
            return fail("each case holds one payload type in parentheses");
        },
    };
    let tys = split_top(inner, ',');
    if tys.len() != 1 {
        return fail("each case holds one payload type in parentheses");
    }
    assert(vv(tys[0]) == split_top_v(vv(*inner), ',')[0]);
    Ok(Variant { attrs: vattrs, name: vname, payload: canonicalize_type_path(&tys[0]) })
}

proof fn lemma_enum_cases_err(pieces: Seq<Seq<TokV>>, k: int, n: int)
    requires
        0 <= k <= n,
        enum_cases_v(pieces, k) is Err,
    ensures
        enum_cases_v(pieces, n) == enum_cases_v(pieces, k),
    decreases n - k,
{
    if k < n {
        lemma_enum_cases_err(pieces, k, n - 1);
    }
}

/// Reads the declared-case form `enum Name<..> where .. { A(T), .. }`, whose first token
/// is at `i`; see [`enum_form_v`].
fn parse_enum_style(s: &Vec<Tok>, i: usize, attrs: Vec<Tok>, vis: Vec<Tok>) -> (r: Result<(TypeDef, usize), SyntaxError>)
    requires
        i < s.len(),
    ensures
        r is Ok <==> enum_form_v(vv(*s), i as int, vv(attrs), vv(vis)) is Ok,
        r matches Ok((d, j)) ==> i < j <= s.len() && wf_def(d) && enum_form_v(vv(*s), i as int, vv(attrs), vv(vis))->Ok_0
            == (def_view(d), j as int),
        r matches Err(e) ==> enum_form_v(vv(*s), i as int, vv(attrs), vv(vis))->Err_0 == (e.message@, e.at as int) && e.at < s.len(),
{
    proof {
        lemma_toks_v(s@);
    }
    let ghost sv = vv(*s);
    let n = s.len();
    let name = match ident_at(s, i + 1) {
        Ok(x) => x,
        Err(e) => {
            return relocate(e, clamp_idx(n, i + 1));
        },
    };
    let (params, k) = match parse_generics(s, i + 2) {
        Ok(x) => x,
        Err(e) => {
            return relocate(e, clamp_idx(n, i + 2));
        },
    };
    let b = match next_brace(s, k) {
        Ok(x) => x,
        Err(e) => {
            return relocate(e, clamp_idx(n, k));
        },
    };
    if k < b {
        assert(sv[k as int] == tok_v(s@[k as int]));
    }
    let where_clause = if k < b && is_ident(&s[k], "where") {
        slice(s, k, b)
    } else if k == b {
        assert(sv.subrange(k as int, b as int) =~= Seq::<TokV>::empty());
        Vec::new()
    } else {
        return fail_at("expected `{`", k);
    };
    assert(sv[b as int] == tok_v(s@[b as int]));
    let body = match group_body(&s[b], Delim::Brace) {
        Some(x) => x,
        None => {
            return fail_at("expected `{`", b);
        },
    };
    let pieces = split_top(body, ',');
    let ghost pv = split_top_v(vv(*body), ',');
    let mut variants: Vec<Variant> = Vec::new();
    let mut v: usize = 0;
    assert(variants_view(variants@) =~= Seq::<VariantV>::empty());
    while v < pieces.len()
        invariant
            v <= pieces.len(),
            pieces_v(pieces@) == pv,
            pv.len() == pieces.len(),
            sv == vv(*s),
            b < s.len(),
            enum_form_v(sv, i as int, vv(attrs), vv(vis)) == (match enum_cases_v(pv, pv.len() as int) {
                Err(e) => Err((e, b as int)),
                Ok(vs) => match plain_def_v(vv(attrs), vv(vis), name@, params_view(params@), vv(where_clause), vs) {
                    Err(e) => Err((e, b as int)),
                    Ok(d) => Ok((d, b + 1)),
                },
            }),
            enum_cases_v(pv, v as int) == Ok::<Seq<VariantV>, Seq<char>>(variants_view(variants@)),
        decreases pieces.len() - v,
    {
        assert(vv(pieces@[v as int]) == pv[v as int]);
        let case = match enum_case(&pieces[v]) {
            Ok(c) => c,
            Err(e) => {
                proof {
                    assert(enum_cases_v(pv, v + 1) is Err);
                    lemma_enum_cases_err(pv, v + 1, pv.len() as int);
                }
                return relocate(e, b);
            },
        };
        let ghost v0 = variants@;
        variants.push(case);
        assert(variants_view(variants@) =~= variants_view(v0).push(variant_view(case)));
        v = v + 1;
    }
    let d = match plain_def(attrs, vis, name, Generics { params, where_clause }, variants) {
        Ok(d) => d,
        Err(e) => {
            return relocate(e, b);
        },
    };
    Ok((d, b + 1))
}

fn binding(p: &Vec<Tok>) -> (r: Result<Binding, SyntaxError>)
    ensures
        r is Ok <==> binding_v(vv(*p)) is Ok,
        r matches Ok(x) ==> binding_v(vv(*p))->Ok_0 == binding_view(x),
        r matches Err(e) ==> binding_v(vv(*p))->Err_0 == e.message@,
{
    proof {
        lemma_toks_v(p@);
    }
    let key = ident_at(p, 0)?;
    if p.len() > 2 {
        assert(vv(*p)[1] == tok_v(p@[1]));
    }
    if !(p.len() > 2 && is_punct(&p[1], '=')) {
        return fail("expected `placeholder = type`");
    }
    Ok(Binding { key, ty: slice(p, 2, p.len()) })
}

pub open spec fn bindings_view(bs: Seq<Binding>) -> Seq<BindingV> {
    bs.map_values(|b: Binding| binding_view(b))
}

proof fn lemma_bindings_err(pieces: Seq<Seq<TokV>>, k: int, n: int)
    requires
        0 <= k <= n,
        bindings_v(pieces, k) is Err,
    ensures
        bindings_v(pieces, n) == bindings_v(pieces, k),
    decreases n - k,
{
    if k < n {
        lemma_bindings_err(pieces, k, n - 1);
    }
}

/// Reads the binding table `T = Type, ..` of one record variant; see [`bindings_v`].
fn parse_bindings(s: &Vec<Tok>) -> (r: Result<Vec<Binding>, SyntaxError>)
    ensures
        r is Ok <==> bindings_v(split_top_v(vv(*s), ','), split_top_v(vv(*s), ',').len() as int) is Ok,
        r matches Ok(bs) ==> bindings_v(split_top_v(vv(*s), ','), split_top_v(vv(*s), ',').len() as int)->Ok_0
            == bindings_view(bs@),
        r matches Err(e) ==> bindings_v(split_top_v(vv(*s), ','), split_top_v(vv(*s), ',').len() as int)->Err_0
            == e.message@,
{
    let pieces = split_top(s, ',');
    let ghost pv = split_top_v(vv(*s), ',');
    let mut out: Vec<Binding> = Vec::new();
    let mut k: usize = 0;
    assert(bindings_view(out@) =~= Seq::<BindingV>::empty());
    while k < pieces.len()
        invariant
            k <= pieces.len(),
            pieces_v(pieces@) == pv,
            pv.len() == pieces.len(),
            pv == split_top_v(vv(*s), ','),
            bindings_v(pv, k as int) == Ok::<Seq<BindingV>, Seq<char>>(bindings_view(out@)),
        decreases pieces.len() - k,
    {
        assert(vv(pieces@[k as int]) == pv[k as int]);
        let b = match binding(&pieces[k]) {
            Ok(b) => b,
            Err(e) => {
                proof {
                    assert(bindings_v(pv, k + 1) is Err);
                    lemma_bindings_err(pv, k + 1, pv.len() as int);
                }
                return Err(e);
            },
        };
        let ghost o = out@;
        out.push(b);
        assert(bindings_view(out@) =~= bindings_view(o).push(binding_view(b)));
        k = k + 1;
    }
    Ok(out)
}

pub open spec fn records_view(rs: Seq<RecordVariant>) -> Seq<RecordVariantV> {
    rs.map_values(|r: RecordVariant| record_view(r))
}

/// Reads the variants clause `V1(T = A, ..), V2(..), ..` of the record form; see
/// [`records_from`].
fn parse_records(s: &Vec<Tok>) -> (r: Result<Vec<RecordVariant>, SyntaxError>)
    ensures
        r is Ok <==> records_from(vv(*s), 0, Seq::empty()) is Ok,
        r matches Ok(rs) ==> records_from(vv(*s), 0, Seq::empty())->Ok_0 == records_view(rs@),
        r matches Err(e) ==> records_from(vv(*s), 0, Seq::empty())->Err_0 == e.message@,
{
    proof {
        lemma_toks_v(s@);
    }
    let ghost sv = vv(*s);
    let mut out: Vec<RecordVariant> = Vec::new();
    let mut k: usize = 0;
    assert(records_view(out@) =~= Seq::<RecordVariantV>::empty());
    while k < s.len()
        invariant
            k <= s.len(),
            sv == vv(*s),
            sv.len() == s.len(),
            forall|j: int| 0 <= j < s.len() ==> #[trigger] sv[j] == tok_v(s@[j]),
            records_from(sv, 0, Seq::empty()) == records_from(sv, k as int, records_view(out@)),
        decreases s.len() - k,
    {
        let (attrs, p) = parse_attrs(s, k);
        let name = ident_at(s, p)?;
        if p + 1 >= s.len() {
            return fail("expected a binding table in parentheses");
        }
        assert(sv[p + 1] == tok_v(s@[p + 1]));
        let inner = match group_body(&s[p + 1], Delim::Paren) {
            Some(x) => x,
            None => {
                return fail("expected a binding table in parentheses");
            },
        };
        let bindings = parse_bindings(inner)?;
        let rv = RecordVariant { attrs, name, bindings };
        let ghost o = out@;
        out.push(rv);
        assert(records_view(out@) =~= records_view(o).push(record_view(rv)));
        k = p + 2;
        if k < s.len() {
            assert(sv[k as int] == tok_v(s@[k as int]));
        }
        if k < s.len() && is_punct(&s[k], ',') {
            k = k + 1;
        }
    }
    Ok(out)
}

/// The index of the `:` that ends a field's name (not part of a `::`).
fn field_colon(f: &Vec<Tok>) -> (r: Option<usize>)
    ensures
        r matches Some(c) ==> c < f.len() && field_colon_from(vv(*f), 0) == Some(c as int),
        r is None ==> field_colon_from(vv(*f), 0) is None,
{
    proof {
        lemma_toks_v(f@);
    }
    let mut k: usize = 0;
    while k < f.len()
        invariant
            k <= f.len(),
            vv(*f).len() == f.len(),
            forall|j: int| 0 <= j < f.len() ==> #[trigger] vv(*f)[j] == tok_v(f@[j]),
            field_colon_from(vv(*f), 0) == field_colon_from(vv(*f), k as int),
        decreases f.len() - k,
    {
        assert(vv(*f)[k as int] == tok_v(f@[k as int]));
        if k > 0 {
            assert(vv(*f)[k - 1] == tok_v(f@[k - 1]));
        }
        match &f[k] {
            Tok::Punct(':', false) => {
                let after_colon = k > 0 && match &f[k - 1] {
                    Tok::Punct(':', true) => true,
                    _ => false,
                };
                if !after_colon {
                    return Some(k);
                }
            },
            _ => {},
        }
        k = k + 1;
    }
    None
}

fn field(p: &Vec<Tok>) -> (r: Result<Field, SyntaxError>)
    ensures
        r is Ok <==> field_v(vv(*p)) is Ok,
        r matches Ok(x) ==> field_v(vv(*p))->Ok_0 == field_view(x),
        r matches Err(e) ==> field_v(vv(*p))->Err_0 == e.message@,
{
    proof {
        lemma_toks_v(p@);
    }
    match field_colon(p) {
        Some(c) => {
            if c + 1 >= p.len() {
                return fail("expected a field type");
            }
            Ok(Field { head: slice(p, 0, c + 1), ty: slice(p, c + 1, p.len()) })
        },
        None => fail("expected `name: type`"),
    }
}

pub open spec fn fields_view(fs: Seq<Field>) -> Seq<FieldV> {
    fs.map_values(|f: Field| field_view(f))
}

proof fn lemma_fields_err(pieces: Seq<Seq<TokV>>, k: int, n: int)
    requires
        0 <= k <= n,
        fields_v(pieces, k) is Err,
    ensures
        fields_v(pieces, n) == fields_v(pieces, k),
    decreases n - k,
{
    if k < n {
        lemma_fields_err(pieces, k, n - 1);
    }
}

/// Reads the shared field template `name: Type, ..` of the record form; see
/// [`fields_v`].
fn parse_fields(s: &Vec<Tok>) -> (r: Result<Vec<Field>, SyntaxError>)
    ensures
        r is Ok <==> fields_v(split_top_v(vv(*s), ','), split_top_v(vv(*s), ',').len() as int) is Ok,
        r matches Ok(fs) ==> fields_v(split_top_v(vv(*s), ','), split_top_v(vv(*s), ',').len() as int)->Ok_0
            == fields_view(fs@),
        r matches Err(e) ==> fields_v(split_top_v(vv(*s), ','), split_top_v(vv(*s), ',').len() as int)->Err_0
            == e.message@,
{
    let pieces = split_top(s, ',');
    let ghost pv = split_top_v(vv(*s), ',');
    let mut out: Vec<Field> = Vec::new();
    let mut k: usize = 0;
    assert(fields_view(out@) =~= Seq::<FieldV>::empty());
    while k < pieces.len()
        invariant
            k <= pieces.len(),
            pieces_v(pieces@) == pv,
            pv.len() == pieces.len(),
            pv == split_top_v(vv(*s), ','),
            fields_v(pv, k as int) == Ok::<Seq<FieldV>, Seq<char>>(fields_view(out@)),
        decreases pieces.len() - k,
    {
        assert(vv(pieces@[k as int]) == pv[k as int]);
        let f = match field(&pieces[k]) {
            Ok(f) => f,
            Err(e) => {
                proof {
                    assert(fields_v(pv, k + 1) is Err);
                    lemma_fields_err(pv, k + 1, pv.len() as int);
                }
                return Err(e);
            },
        };
        let ghost o = out@;
        out.push(f);
        assert(fields_view(out@) =~= fields_view(o).push(field_view(f)));
        k = k + 1;
    }
    Ok(out)
}

/// The payload type of a record variant: `NameV::<..>`.
fn record_payload(name: &String, rname: &String, g: &Generics) -> (r: Vec<Tok>)
    ensures
        vv(r) == (if g.params.len() == 0 {
            seq![TokV::Ident(name@ + rname@)]
        } else {
            seq![TokV::Ident(name@ + rname@), TokV::Punct(':', true), TokV::Punct(':', false)]
                + crate::model::angled(crate::model::names_of_params(*g))
        }),
{
    let mut r: Vec<Tok> = Vec::new();
    r.push(Tok::Ident(record_name(name, rname)));
    proof {
        reveal_with_fuel(toks_v, 4);
    }
    if g.params.len() > 0 {
        r.push(Tok::Punct(':', true));
        r.push(Tok::Punct(':', false));
        let ghost h = vv(r);
        assert(h =~= seq![TokV::Ident(name@ + rname@), TokV::Punct(':', true), TokV::Punct(':', false)]);
        push_all(&mut r, &g.type_generics());
    } else {
        assert(vv(r) =~= seq![TokV::Ident(name@ + rname@)]);
    }
    r
}

fn find_key(bs: &Vec<Binding>, key: &String) -> (r: bool)
    ensures
        r == (exists|b: int| 0 <= b < bs.len() && #[trigger] bs@[b].key@ == key@),
        r == binds(bindings_view(bs@), key@),
{
    let ghost bv = bindings_view(bs@);
    let mut b: usize = 0;
    while b < bs.len()
        invariant
            b <= bs.len(),
            bv == bindings_view(bs@),
            forall|x: int| 0 <= x < b ==> bs@[x].key@ != key@,
        decreases bs.len() - b,
    {
        if bs[b].key == *key {
            assert(bs@[b as int].key@ == key@);
            assert(bv[b as int].key == key@);
            return true;
        }
        b = b + 1;
    }
    assert forall|x: int| 0 <= x < bv.len() implies #[trigger] bv[x].key != key@ by {
        assert(bv[x].key == bs@[x].key@);
    }
    false
}

proof fn lemma_param_names_view(ps: Seq<GenericParam>)
    ensures
        param_names_of(ps) == type_param_names_v(params_view(ps)),
    decreases ps.len(),
{
    if ps.len() > 0 {
        lemma_param_names_view(ps.drop_last());
        assert(params_view(ps).drop_last() =~= params_view(ps.drop_last()));
    }
}

/// Reads the record form `struct Name<..> variants<T, ..> { V(T = A, ..), .. } { field:
/// Type, .. }`, whose first token is at `i`; see [`struct_form_v`].
fn parse_struct(s: &Vec<Tok>, i: usize, attrs: Vec<Tok>, vis: Vec<Tok>) -> (r: Result<(TypeDef, usize), SyntaxError>)
    requires
        i < s.len(),
    ensures
        r is Ok <==> struct_form_v(vv(*s), i as int, vv(attrs), vv(vis)) is Ok,
        r matches Ok((d, j)) ==> i < j <= s.len() && wf_def(d) && struct_form_v(vv(*s), i as int, vv(attrs), vv(vis))->Ok_0
            == (def_view(d), j as int),
        r matches Err(e) ==> struct_form_v(vv(*s), i as int, vv(attrs), vv(vis))->Err_0 == (e.message@, e.at as int) && e.at < s.len(),
{
    proof {
        lemma_toks_v(s@);
    }
    let ghost sv = vv(*s);
    let n = s.len();
    let name = match ident_at(s, i + 1) {
        Ok(x) => x,
        Err(e) => {
            return relocate(e, clamp_idx(n, i + 1));
        },
    };
    let (params, k) = match parse_generics(s, i + 2) {
        Ok(x) => x,
        Err(e) => {
            return relocate(e, clamp_idx(n, i + 2));
        },
    };
    if k < s.len() {
        assert(sv[k as int] == tok_v(s@[k as int]));
    }
    if !(k < s.len() && is_ident(&s[k], "variants")) {
        return fail_at("expected `variants`", clamp_idx(n, k));
    }
    let (rt, k) = match parse_generics(s, k + 1) {
        Ok(x) => x,
        Err(e) => {
            return relocate(e, clamp_idx(n, k + 1));
        },
    };
    let ghost rtp = params_view(rt@);
    if k < s.len() {
        assert(sv[k as int] == tok_v(s@[k as int]));
    }
    if k < s.len() && is_ident(&s[k], "where") {
        return fail_at("where clause illegal for runtime generics", k);
    }
    if s.len() - k < 2 {
        return fail_at("expected `{`", clamp_idx(n, k));
    }
    assert(sv[k + 1] == tok_v(s@[k + 1]));
    let records = match group_body(&s[k], Delim::Brace) {
        Some(x) => match parse_records(x) {
            Ok(r) => r,
            Err(e) => {
                return relocate(e, k);
            },
        },
        None => {
            return fail_at("expected `{`", k);
        },
    };
    let fields = match group_body(&s[k + 1], Delim::Brace) {
        Some(x) => match parse_fields(x) {
            Ok(r) => r,
            Err(e) => {
                return relocate(e, k + 1);
            },
        },
        None => {
            return fail_at("expected `{`", k + 1);
        },
    };
    let ghost rt0 = rt@;
    let runtime = type_params_from_generics(&Generics { params: rt, where_clause: Vec::new() });
    let ghost rsv = records_view(records@);
    let ghost rtv = runtime@.map_values(|x: String| x@);
    proof {
        lemma_param_names_view(rt0);
        assert(rtv == type_param_names_v(rtp));
    }
    let mut j: usize = 0;
    while j < records.len()
        invariant
            j <= records.len(),
            sv == vv(*s),
            rsv == records_view(records@),
            struct_form_v(sv, i as int, vv(attrs), vv(vis)) == (match struct_tail_v(vv(attrs), vv(vis), name@, params_view(params@), rtp, rsv, fields_view(fields@), k as int) {
                Err(e) => Err((e, k as int)),
                Ok(x) => Ok(x),
            }),
            n == s.len(),
            k + 2 <= s.len(),
            rtv == type_param_names_v(rtp),
            rtv == runtime@.map_values(|x: String| x@),
            forall|a: int, b: int|
                0 <= a < j && 0 <= b < runtime.len() ==> #[trigger] has_binding(records@[a], #[trigger] runtime@[b]@),
            forall|a: int, b: int|
                0 <= a < j && 0 <= b < runtime.len() ==> #[trigger] binds(rsv[a].bindings, #[trigger] rtv[b]),
        decreases records.len() - j,
    {
        let mut q: usize = 0;
        while q < runtime.len()
            invariant
                j < records.len(),
                q <= runtime.len(),
                sv == vv(*s),
                rsv == records_view(records@),
                struct_form_v(sv, i as int, vv(attrs), vv(vis)) == (match struct_tail_v(vv(attrs), vv(vis), name@, params_view(params@), rtp, rsv, fields_view(fields@), k as int) {
                Err(e) => Err((e, k as int)),
                Ok(x) => Ok(x),
            }),
            n == s.len(),
            k + 2 <= s.len(),
                rtv == type_param_names_v(rtp),
                rtv == runtime@.map_values(|x: String| x@),
                forall|a: int, b: int|
                    0 <= a < j && 0 <= b < runtime.len() ==> #[trigger] has_binding(records@[a], #[trigger] runtime@[b]@),
                forall|a: int, b: int|
                    0 <= a < j && 0 <= b < runtime.len() ==> #[trigger] binds(rsv[a].bindings, #[trigger] rtv[b]),
                forall|b: int| 0 <= b < q ==> #[trigger] has_binding(records@[j as int], runtime@[b]@),
                forall|b: int| 0 <= b < q ==> #[trigger] binds(rsv[j as int].bindings, rtv[b]),
            decreases runtime.len() - q,
        {
            let found = find_key(&records[j].bindings, &runtime[q]);
            assert(rsv[j as int].bindings == bindings_view(records@[j as int].bindings@));
            assert(rtv[q as int] == runtime@[q as int]@);
            assert(found == binds(rsv[j as int].bindings, rtv[q as int]));
            if !found {
                assert(!bindings_cover(rsv, rtv));
                return fail_at("a binding table gives no type for a runtime placeholder", k);
            }
            assert(has_binding(records@[j as int], runtime@[q as int]@));
            q = q + 1;
        }
        j = j + 1;
    }
    assert(bindings_cover(rsv, rtv));
    let generics = Generics { params, where_clause: Vec::new() };
    let ghost rvs = record_variants_v(name@, params_view(generics.params@), rsv);
    let mut variants: Vec<Variant> = Vec::new();
    let mut v: usize = 0;
    while v < records.len()
        invariant
            v <= records.len(),
            variants.len() == v,
            rsv == records_view(records@),
            rvs == record_variants_v(name@, params_view(generics.params@), rsv),
            forall|a: int| 0 <= a < v ==> (#[trigger] variants@[a]).name@ == records@[a].name@
                && vv(variants@[a].payload) == (if generics.params.len() == 0 {
                    seq![TokV::Ident(name@ + records@[a].name@)]
                } else {
                    seq![TokV::Ident(name@ + records@[a].name@), TokV::Punct(':', true), TokV::Punct(':', false)]
                        + crate::model::angled(crate::model::names_of_params(generics))
                }),
            forall|a: int| 0 <= a < v ==> #[trigger] variants_view(variants@)[a] == rvs[a],
        decreases records.len() - v,
    {
        let payload = record_payload(&name, &records[v].name, &generics);
        let nv = Variant { attrs: Vec::new(), name: records[v].name.clone(), payload };
        assert(variant_view(nv) == rvs[v as int]) by {
            assert(params_view(generics.params@).map_values(|p: GenericParamV| p.name) =~= crate::model::names_of_params(generics));
            assert(vv(nv.attrs) =~= Seq::<TokV>::empty());
        }
        let ghost o = variants@;
        variants.push(nv);
        assert(variants_view(variants@) =~= variants_view(o).push(variant_view(nv)));
        v = v + 1;
    }
    assert(variants_view(variants@) =~= rvs);
    match check_unique(&variants) {
        Ok(()) => {},
        Err(e) => {
            return relocate(e, k);
        },
    }
    let d = TypeDef { attrs, vis, name, generics, variants, runtime, records, fields };
    assert(crate::model::records_match(d));
    assert(def_view(d).records == rsv);
    assert(def_view(d).where_clause =~= Seq::<TokV>::empty());
    Ok((d, k + 2))
}

/// The index of the first parenthesised group of `sig` at or after `k`.
pub open spec fn first_paren_from(sig: Seq<TokV>, k: int) -> Option<int>
    decreases sig.len() - k,
{
    if k < 0 || k >= sig.len() {
        None
    } else if sig[k] is Group && sig[k]->Group_0 == Delim::Paren {
        Some(k)
    } else {
        first_paren_from(sig, k + 1)
    }
}

/// Whether a parameter is a receiver: `self` after an optional `&`, lifetime and `mut`.
pub open spec fn is_receiver(first: Seq<TokV>) -> bool {
    let q0: int = if first.len() > 0 && first[0] is Punct && first[0]->Punct_0 == '&' {
        1
    } else {
        0
    };
    let q1: int = if q0 < first.len() && first.len() - q0 >= 2 && first[q0] is Punct
        && first[q0]->Punct_0 == '\'' {
        q0 + 2
    } else {
        q0
    };
    let q2: int = if q1 < first.len() && first[q1] == id_v("mut"@) {
        q1 + 1
    } else {
        q1
    };
    q2 < first.len() && first[q2] == id_v("self"@)
}

/// Whether a method's signature starts its parameters (its first parenthesised group)
/// with a receiver (`self`, `&self`, `&'a mut self`, `mut self`, `self: Box<Self>`).
pub open spec fn receiver_v(sig: Seq<TokV>) -> bool {
    match first_paren_from(sig, 0) {
        Some(k) => {
            let ps = split_top_v(sig[k]->Group_1, ',');
            ps.len() > 0 && is_receiver(ps[0])
        },
        None => false,
    }
}

/// Whether a method's signature starts its parameters with a receiver; see
/// [`receiver_v`].
fn sig_contains_self_arg(sig: &Vec<Tok>) -> (r: bool)
    ensures
        r == receiver_v(vv(*sig)),
{
    proof {
        lemma_toks_v(sig@);
    }
    let ghost sv = vv(*sig);
    let mut k: usize = 0;
    while k < sig.len()
        invariant
            k <= sig.len(),
            sv == vv(*sig),
            sv.len() == sig.len(),
            forall|j: int| 0 <= j < sig.len() ==> #[trigger] sv[j] == tok_v(sig@[j]),
            first_paren_from(sv, 0) == first_paren_from(sv, k as int),
        decreases sig.len() - k,
    {
        assert(sv[k as int] == tok_v(sig@[k as int]));
        match group_body(&sig[k], Delim::Paren) {
            Some(params) => {
                let pieces = split_top(params, ',');
                if pieces.len() == 0 {
                    return false;
                }
                let first = &pieces[0];
                assert(vv(*first) == split_top_v(vv(*params), ',')[0]);
                proof {
                    lemma_toks_v(first@);
                }
                let ghost fv = vv(*first);
                let mut q: usize = 0;
                if q < first.len() && is_punct(&first[q], '&') {
                    q = q + 1;
                }
                assert(fv.len() > 0 ==> fv[0] == tok_v(first@[0]));
                if q < first.len() && first.len() - q >= 2 && is_punct(&first[q], '\'') {
                    q = q + 2;
                }
                if q < first.len() {
                    assert(fv[q as int] == tok_v(first@[q as int]));
                }
                if q < first.len() && is_ident(&first[q], "mut") {
                    q = q + 1;
                }
                if q < first.len() {
                    assert(fv[q as int] == tok_v(first@[q as int]));
                }
                return q < first.len() && is_ident(&first[q], "self");
            },
            None => {},
        }
        k = k + 1;
    }
    false
}

/// Reads the items of a template block: methods, and other items kept as they are.
pub open spec fn item_toks(it: ImplItem) -> Seq<TokV> {
    match it {
        ImplItem::Method(m) => vv(m.head) + seq![id_v(m.name@)] + vv(m.sig) + seq![
            TokV::Group(Delim::Brace, vv(m.body)),
        ],
        ImplItem::Other(t) => vv(t),
    }
}

/// The tokens of a block's items, one after another.
pub open spec fn items_toks(its: Seq<ImplItem>) -> Seq<TokV>
    decreases its.len(),
{
    if its.len() == 0 {
        Seq::empty()
    } else {
        items_toks(its.drop_last()) + item_toks(its.last())
    }
}

/// A method's head ends with `fn`, and it has a receiver exactly where its signature
/// starts with one.
pub open spec fn methods_marked(its: Seq<ImplItem>) -> bool {
    forall|k: int|
        0 <= k < its.len() && (#[trigger] its[k]) is Method ==> vv(its[k]->Method_0.head).len() > 0
            && vv(its[k]->Method_0.head).last() == id_v("fn"@) && its[k]->Method_0.has_receiver
            == receiver_v(vv(its[k]->Method_0.sig))
}

pub open spec fn opt_int(f: Option<usize>) -> Option<int> {
    match f {
        Some(x) => Some(x as int),
        None => None,
    }
}

pub open spec fn items_view_of(its: Seq<ImplItem>) -> Seq<ImplItemV> {
    its.map_values(|it: ImplItem| item_view(it))
}

/// Reads the items of a template block: the block's tokens are cut, without loss, into
/// methods and other items kept as they are.
fn parse_impl_items(s: &Vec<Tok>) -> (r: Result<Vec<ImplItem>, SyntaxError>)
    ensures
        r is Ok <==> block_items_from(vv(*s), 0, Seq::empty()) is Ok,
        r matches Ok(its) ==> block_items_from(vv(*s), 0, Seq::empty())->Ok_0 == items_view_of(its@),
        r matches Err(e) ==> block_items_from(vv(*s), 0, Seq::empty())->Err_0 == e.message@,
        r matches Ok(its) ==> items_toks(its@) == vv(*s) && methods_marked(its@),
{
    proof {
        lemma_toks_v(s@);
    }
    let ghost sv = vv(*s);
    let mut items: Vec<ImplItem> = Vec::new();
    let mut k: usize = 0;
    assert(sv.subrange(0, 0) =~= Seq::<TokV>::empty());
    assert(items_view_of(items@) =~= Seq::<ImplItemV>::empty());
    while k < s.len()
        invariant
            k <= s.len(),
            sv == vv(*s),
            sv.len() == s.len(),
            forall|j: int| 0 <= j < s.len() ==> #[trigger] sv[j] == tok_v(s@[j]),
            items_toks(items@) == sv.subrange(0, k as int),
            methods_marked(items@),
            block_items_from(sv, 0, Seq::empty()) == block_items_from(sv, k as int, items_view_of(items@)),
        decreases s.len() - k,
    {
        let start = k;
        let (_, a) = parse_attrs(s, k);
        let mut e: usize = a;
        let mut f: Option<usize> = None;
        while e < s.len() && !is_punct(&s[e], ';') && group_body(&s[e], Delim::Brace).is_none()
            invariant
                a <= e <= s.len(),
                start <= a,
                sv == vv(*s),
                sv.len() == s.len(),
                forall|j: int| 0 <= j < s.len() ==> #[trigger] sv[j] == tok_v(s@[j]),
                f matches Some(x) ==> a <= x < e && sv[x as int] == id_v("fn"@),
                item_end_from(sv, a as int, None) == item_end_from(sv, e as int, opt_int(f)),
            decreases s.len() - e,
        {
            assert(sv[e as int] == tok_v(s@[e as int]));
            if f.is_none() && is_ident(&s[e], "fn") {
                f = Some(e);
            }
            e = e + 1;
        }
        if e < s.len() {
            assert(sv[e as int] == tok_v(s@[e as int]));
        }
        assert(item_end_from(sv, a as int, None) == (e as int, opt_int(f)));
        if e >= s.len() {
            return fail("expected an item of the block");
        }
        let ghost before = items@;
        let mut done = false;
        match (f, group_body(&s[e], Delim::Brace)) {
            (Some(fi), Some(body)) => {
                if fi + 1 < e {
                    match &s[fi + 1] {
                        Tok::Ident(n) => {
                            let sig = slice(s, fi + 2, e);
                            let has_receiver = sig_contains_self_arg(&sig);
                            let m = Method {
                                head: slice(s, start, fi + 1),
                                name: n.clone(),
                                sig,
                                has_receiver,
                                body: copy_toks(body),
                            };
                            assert(item_toks(ImplItem::Method(m)) =~= sv.subrange(start as int, e + 1)) by {
                                assert(sv[fi + 1] == tok_v(s@[fi + 1]));
                                assert(sv[e as int] == tok_v(s@[e as int]));
                            }
                            assert(vv(m.head).last() == id_v("fn"@));
                            items.push(ImplItem::Method(m));
                            done = true;
                        },
                        _ => {},
                    }
                }
            },
            _ => {},
        }
        if !done {
            let t = slice(s, start, e + 1);
            items.push(ImplItem::Other(t));
        }
        proof {
            assert(items@.drop_last() =~= before);
            assert(item_toks(items@.last()) == sv.subrange(start as int, e + 1));
            assert(item_view(items@.last()) == block_item_v(sv, start as int, e as int, opt_int(f))) by {
                match f {
                    Some(fi) => {
                        if fi + 1 < e {
                            assert(sv[fi + 1] == tok_v(s@[fi + 1]));
                        }
                    },
                    None => {},
                }
            }
            assert(items_view_of(items@) =~= items_view_of(before).push(item_view(items@.last())));
            assert(sv.subrange(0, e + 1) =~= sv.subrange(0, start as int) + sv.subrange(start as int, e + 1));
            assert forall|q: int|
                0 <= q < items.len() && (#[trigger] items@[q]) is Method implies vv(items@[q]->Method_0.head).len() > 0
                    && vv(items@[q]->Method_0.head).last() == id_v("fn"@) && items@[q]->Method_0.has_receiver
                    == receiver_v(vv(items@[q]->Method_0.sig)) by {
                if q < before.len() {
                    assert(items@[q] == before[q]);
                }
            }
        }
        k = e + 1;
    }
    assert(sv.subrange(0, sv.len() as int) =~= sv);
    Ok(items)
}

/// The `for` of a trait impl's header among `s[k..b]`; see [`trait_for_from`].
fn trait_for(s: &Vec<Tok>, k: usize, b: usize) -> (r: Option<usize>)
    requires
        k <= b <= s.len(),
    ensures
        r matches Some(q) ==> k <= q < b,
        opt_int(r) == trait_for_from(vv(*s), k as int, b as int, 0),
{
    proof {
        lemma_toks_v(s@);
    }
    let ghost sv = vv(*s);
    let mut depth: usize = 0;
    let mut q: usize = k;
    while q < b
        invariant
            k <= q <= b <= s.len(),
            depth <= q,
            sv == vv(*s),
            sv.len() == s.len(),
            forall|j: int| 0 <= j < s.len() ==> #[trigger] sv[j] == tok_v(s@[j]),
            trait_for_from(sv, k as int, b as int, 0) == trait_for_from(sv, q as int, b as int, depth as nat),
        decreases b - q,
    {
        assert(sv[q as int] == tok_v(s@[q as int]));
        if q + 1 < s.len() {
            assert(sv[q + 1] == tok_v(s@[q + 1]));
        }
        if depth == 0 && is_ident(&s[q], "where") {
            return None;
        }
        if depth == 0 && is_ident(&s[q], "for") && !(q + 1 < s.len() && is_punct(&s[q + 1], '<')) {
            return Some(q);
        }
        depth = angle_after(s, q, depth);
        q = q + 1;
    }
    None
}

/// The first identifier among `s[from..to]`.
fn first_ident(s: &Vec<Tok>, from: usize, to: usize) -> (r: Option<usize>)
    requires
        from <= to <= s.len(),
    ensures
        r matches Some(q) ==> from <= q < to && s@[q as int] is Ident,
        opt_int(r) == first_ident_from(vv(*s), from as int, to as int),
{
    proof {
        lemma_toks_v(s@);
    }
    let mut q: usize = from;
    while q < to
        invariant
            from <= q <= to <= s.len(),
            vv(*s).len() == s.len(),
            forall|j: int| 0 <= j < s.len() ==> #[trigger] vv(*s)[j] == tok_v(s@[j]),
            first_ident_from(vv(*s), from as int, to as int) == first_ident_from(vv(*s), q as int, to as int),
        decreases to - q,
    {
        assert(vv(*s)[q as int] == tok_v(s@[q as int]));
        match &s[q] {
            Tok::Ident(_) => {
                return Some(q);
            },
            _ => {},
        }
        q = q + 1;
    }
    None
}

/// Reads a template block `impl<..> Name<..> where .. { .. }` whose first token is at
/// `i`.
fn parse_impl(s: &Vec<Tok>, i: usize, attrs: Vec<Tok>) -> (r: Result<(ImplBlock, usize), SyntaxError>)
    requires
        i < s.len(),
    ensures
        r is Ok <==> impl_form_v(vv(*s), i as int, vv(attrs)) is Ok,
        r matches Ok((b, j)) ==> i < j <= s.len() && impl_form_v(vv(*s), i as int, vv(attrs))->Ok_0 == (block_view(b), j as int),
        r matches Err(e) ==> impl_form_v(vv(*s), i as int, vv(attrs))->Err_0 == (e.message@, e.at as int) && e.at < s.len(),
        r matches Ok((b, j)) ==> b.attrs == attrs && vv(b.head) == vv(*s).subrange(
            i as int,
            j - 1,
        ) && vv(*s)[j - 1] is Group && vv(*s)[j - 1]->Group_0 == Delim::Brace && items_toks(b.items@)
            == vv(*s)[j - 1]->Group_1 && methods_marked(b.items@) && exists|q: int|
            i < q < j - 1 && #[trigger] vv(*s)[q] == id_v(b.target@),
{
    proof {
        lemma_toks_v(s@);
    }
    let ghost sv = vv(*s);
    let n = s.len();
    let (_, k) = match parse_generics(s, i + 1) {
        Ok(x) => x,
        Err(e) => {
            return relocate(e, clamp_idx(n, i + 1));
        },
    };
    let b = match next_brace(s, k) {
        Ok(x) => x,
        Err(e) => {
            return relocate(e, clamp_idx(n, k));
        },
    };
    match trait_for(s, k, b) {
        Some(q) => {
            return fail_at("impl for traits doesn't belong in summum block", q);
        },
        None => {},
    }
    let target = match first_ident(s, k, b) {
        Some(q) => match &s[q] {
            Tok::Ident(n) => {
                assert(vv(*s)[q as int] == tok_v(s@[q as int]));
                n.clone()
            },
            _ => {
                return fail_at("invalid type", clamp_idx(n, k));
            },
        },
        None => {
            return fail_at("invalid type", clamp_idx(n, k));
        },
    };
    let items = match group_body(&s[b], Delim::Brace) {
        Some(body) => match parse_impl_items(body) {
            Ok(x) => x,
            Err(e) => {
                return relocate(e, b);
            },
        },
        None => {
            return fail_at("expected `{`", b);
        },
    };
    assert(vv(*s)[b as int] == tok_v(s@[b as int]));
    let blk = ImplBlock { attrs, head: slice(s, i, b), target, items };
    assert(block_view(blk).items == items_view_of(blk.items@));
    Ok((blk, b + 1))
}

/// What one generation unit holds: its union definitions and its template blocks, in
/// the order written.
pub struct Items {
    pub types: Vec<TypeDef>,
    pub impls: Vec<ImplBlock>,
}

/// Reads one union definition whose attributes end before `a`.
fn parse_def(s: &Vec<Tok>, a: usize, attrs: Vec<Tok>) -> (r: Result<(TypeDef, usize), SyntaxError>)
    requires
        a <= s.len(),
        0 < s.len(),
    ensures
        r is Ok <==> def_v(vv(*s), a as int, vv(attrs)) is Ok,
        r matches Ok((d, j)) ==> a < j <= s.len() && wf_def(d) && def_v(vv(*s), a as int, vv(attrs))->Ok_0
            == (def_view(d), j as int),
        r matches Err(e) ==> def_v(vv(*s), a as int, vv(attrs))->Err_0 == (e.message@, e.at as int) && e.at < s.len(),
{
    proof {
        lemma_toks_v(s@);
    }
    let (vis, v) = parse_vis(s, a);
    if v >= s.len() {
        return fail_at("expected `enum`, `struct`, `type`, or `impl`", clamp_idx(s.len(), v));
    }
    assert(vv(*s)[v as int] == tok_v(s@[v as int]));
    if is_ident(&s[v], "type") {
        parse_list_form(s, v, attrs, vis)
    } else if is_ident(&s[v], "enum") {
        parse_enum_style(s, v, attrs, vis)
    } else if is_ident(&s[v], "struct") {
        parse_struct(s, v, attrs, vis)
    } else {
        fail_at("expected `enum`, `struct`, `type`, or `impl`", v)
    }
}

pub open spec fn defs_view(ds: Seq<TypeDef>) -> Seq<TypeDefV> {
    ds.map_values(|d: TypeDef| def_view(d))
}

pub open spec fn blocks_view(bs: Seq<ImplBlock>) -> Seq<ImplBlockV> {
    bs.map_values(|b: ImplBlock| block_view(b))
}

/// Reads a whole generation unit; see [`parse_v`]. Every definition read is well formed;
/// an error holds the index of the unit's token where reading failed.
pub fn parse_items(s: &Vec<Tok>) -> (r: Result<Items, SyntaxError>)
    ensures
        r is Ok <==> parse_v(vv(*s)) is Ok,
        r matches Ok(items) ==> parse_v(vv(*s))->Ok_0 == items_view(items),
        r matches Err(e) ==> parse_v(vv(*s))->Err_0 == (e.message@, e.at as int),
        r matches Ok(items) ==> forall|t: int| 0 <= t < items.types.len() ==> wf_def(#[trigger] items.types@[t]),
        r matches Ok(items) ==> forall|t: int|
            0 <= t < items.impls.len() ==> methods_marked((#[trigger] items.impls@[t]).items@),
        r matches Err(e) ==> e.at < s.len(),
{
    proof {
        lemma_toks_v(s@);
    }
    let ghost sv = vv(*s);
    let mut types: Vec<TypeDef> = Vec::new();
    let mut impls: Vec<ImplBlock> = Vec::new();
    let mut k: usize = 0;
    assert(defs_view(types@) =~= Seq::<TypeDefV>::empty());
    assert(blocks_view(impls@) =~= Seq::<ImplBlockV>::empty());
    while k < s.len()
        invariant
            k <= s.len(),
            sv == vv(*s),
            sv.len() == s.len(),
            forall|j: int| 0 <= j < s.len() ==> #[trigger] sv[j] == tok_v(s@[j]),
            parse_v(sv) == items_from(sv, k as int, defs_view(types@), blocks_view(impls@)),
            forall|t: int| 0 <= t < types.len() ==> wf_def(#[trigger] types@[t]),
            forall|t: int| 0 <= t < impls.len() ==> methods_marked((#[trigger] impls@[t]).items@),
        decreases s.len() - k,
    {
        let (attrs, a) = parse_attrs(s, k);
        if a < s.len() {
            assert(sv[a as int] == tok_v(s@[a as int]));
        }
        if a < s.len() && is_ident(&s[a], "impl") {
            match parse_impl(s, a, attrs) {
                Ok((b, next)) => {
                    let ghost o = impls@;
                    impls.push(b);
                    assert(blocks_view(impls@) =~= blocks_view(o).push(block_view(b)));
                    k = next;
                },
                Err(e) => {
                    return Err(e);
                },
            }
        } else {
            match parse_def(s, a, attrs) {
                Ok((d, next)) => {
                    let ghost o = types@;
                    types.push(d);
                    assert(defs_view(types@) =~= defs_view(o).push(def_view(d)));
                    k = next;
                },
                Err(e) => {
                    return Err(e);
                },
            }
        }
    }
    let items = Items { types, impls };
    assert(items_view(items) == ItemsV { types: defs_view(items.types@), impls: blocks_view(items.impls@) });
    Ok(items)
}

} // verus!
