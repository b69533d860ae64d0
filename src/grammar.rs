//! The grammar of a generation unit, as spec functions: what reading a unit's tokens
//! gives, or the error it stops with. The readers in `parse` are proved to agree.
use vstd::prelude::*;
use crate::casing::upper_camel_of;
use crate::model::{angled, Binding, Field, GenericParam, ImplBlock, ImplItem, RecordVariant, TypeDef, Variant};
use crate::parse::Items;
use crate::parse::{angle_after_v, canonical_v, receiver_v, split_top_v};
use crate::text::text_seq;
use crate::tokens::{id_v, vv, Delim, TokV};

verus! {

/// A generic parameter; see `model::GenericParam`.
pub struct GenericParamV {
    pub decl: Seq<TokV>,
    pub name: Seq<TokV>,
    pub is_type: bool,
}

pub struct VariantV {
    pub attrs: Seq<TokV>,
    pub name: Seq<char>,
    pub payload: Seq<TokV>,
}

pub struct FieldV {
    pub head: Seq<TokV>,
    pub ty: Seq<TokV>,
}

pub struct BindingV {
    pub key: Seq<char>,
    pub ty: Seq<TokV>,
}

pub struct RecordVariantV {
    pub attrs: Seq<TokV>,
    pub name: Seq<char>,
    pub bindings: Seq<BindingV>,
}

/// A union definition; see `model::TypeDef`.
pub struct TypeDefV {
    pub attrs: Seq<TokV>,
    pub vis: Seq<TokV>,
    pub name: Seq<char>,
    pub params: Seq<GenericParamV>,
    pub where_clause: Seq<TokV>,
    pub variants: Seq<VariantV>,
    pub runtime: Seq<Seq<char>>,
    pub records: Seq<RecordVariantV>,
    pub fields: Seq<FieldV>,
}

pub struct MethodV {
    pub head: Seq<TokV>,
    pub name: Seq<char>,
    pub sig: Seq<TokV>,
    pub has_receiver: bool,
    pub body: Seq<TokV>,
}

pub enum ImplItemV {
    Method(MethodV),
    Other(Seq<TokV>),
}

pub struct ImplBlockV {
    pub attrs: Seq<TokV>,
    pub head: Seq<TokV>,
    pub target: Seq<char>,
    pub items: Seq<ImplItemV>,
}

/// A generation unit: its definitions and its template blocks, in source order.
pub struct ItemsV {
    pub types: Seq<TypeDefV>,
    pub impls: Seq<ImplBlockV>,
}

/// A syntax error: its message, and the index of the token of the unit where reading
/// failed (a failure inside a group is located at the group).
pub type SynErr = (Seq<char>, int);

/// `i`, or the last index where `i` is past the end.
pub open spec fn clamp(n: int, i: int) -> int {
    if i < n {
        i
    } else {
        n - 1
    }
}

/// The `for` of a trait impl's header among `s[q..b]`: one outside angle brackets, before
/// any `where`, and not opening a higher-ranked bound (`for<'a>`).
pub open spec fn trait_for_from(s: Seq<TokV>, q: int, b: int, depth: nat) -> Option<int>
    decreases b - q,
{
    if q < 0 || q >= b || q >= s.len() {
        None
    } else if depth == 0 && s[q] == id_v("where"@) {
        None
    } else if depth == 0 && s[q] == id_v("for"@) && !(q + 1 < s.len() && is_punct_v(s[q + 1], '<')) {
        Some(q)
    } else {
        trait_for_from(s, q + 1, b, angle_after_v(s, q, depth))
    }
}

pub open spec fn is_punct_v(t: TokV, c: char) -> bool {
    t is Punct && t->Punct_0 == c
}

pub open spec fn is_group_v(t: TokV, d: Delim) -> bool {
    t is Group && t->Group_0 == d
}

/// Where the outer attributes (`#[..]`) starting at `k` end.
pub open spec fn attrs_end(s: Seq<TokV>, k: int) -> int
    decreases s.len() - k,
{
    if 0 <= k && k + 1 < s.len() && is_punct_v(s[k], '#') && is_group_v(s[k + 1], Delim::Bracket) {
        attrs_end(s, k + 2)
    } else {
        k
    }
}

/// Where an optional visibility (`pub`, `pub(..)`) starting at `i` ends.
pub open spec fn vis_end(s: Seq<TokV>, i: int) -> int {
    if 0 <= i < s.len() && s[i] == id_v("pub"@) {
        if i + 1 < s.len() && is_group_v(s[i + 1], Delim::Paren) {
            i + 2
        } else {
            i + 1
        }
    } else {
        i
    }
}

/// The identifier at `i`, if there is one.
pub open spec fn ident_v(s: Seq<TokV>, i: int) -> Option<Seq<char>> {
    if 0 <= i < s.len() && s[i] is Ident {
        Some(s[i]->Ident_0)
    } else {
        None
    }
}

/// The index of the `>` that brings the angle depth from `depth` to zero, from `k` on.
pub open spec fn angle_close_from(s: Seq<TokV>, k: int, depth: nat) -> Option<int>
    decreases s.len() - k,
{
    if k < 0 || k >= s.len() {
        None
    } else if angle_after_v(s, k, depth) == 0 {
        Some(k)
    } else {
        angle_close_from(s, k + 1, angle_after_v(s, k, depth))
    }
}

/// Where a parameter's default (`=` outside angle brackets) starts, or its length.
pub open spec fn default_start_from(p: Seq<TokV>, i: int, depth: nat) -> int
    decreases p.len() - i,
{
    if i < 0 || i >= p.len() {
        p.len() as int
    } else if depth == 0 && is_punct_v(p[i], '=') {
        i
    } else {
        default_start_from(p, i + 1, angle_after_v(p, i, depth))
    }
}

pub open spec fn generic_param_v(p: Seq<TokV>) -> Result<GenericParamV, Seq<char>> {
    let end = default_start_from(p, 0, 0);
    if end <= 0 {
        Err("expected a generic parameter"@)
    } else {
        let decl = p.subrange(0, end);
        if is_punct_v(p[0], '\'') && p.len() >= 2 {
            Ok(GenericParamV { decl, name: p.subrange(0, 2), is_type: false })
        } else if p[0] == id_v("const"@) && p.len() >= 2 {
            Ok(GenericParamV { decl, name: p.subrange(1, 2), is_type: false })
        } else if p[0] is Ident {
            Ok(GenericParamV { decl, name: p.subrange(0, 1), is_type: true })
        } else {
            Err("expected a generic parameter"@)
        }
    }
}

/// The parameters read from the first `n` pieces, or the first error.
pub open spec fn params_v(pieces: Seq<Seq<TokV>>, n: int) -> Result<Seq<GenericParamV>, Seq<char>>
    decreases n,
{
    if n <= 0 {
        Ok(Seq::empty())
    } else {
        match params_v(pieces, n - 1) {
            Err(e) => Err(e),
            Ok(ps) => match generic_param_v(pieces[n - 1]) {
                Err(e) => Err(e),
                Ok(g) => Ok(ps.push(g)),
            },
        }
    }
}

/// An optional generic parameter list at `i`, and where reading goes on.
pub open spec fn generics_v(s: Seq<TokV>, i: int) -> Result<(Seq<GenericParamV>, int), Seq<char>> {
    if 0 <= i < s.len() && is_punct_v(s[i], '<') {
        match angle_close_from(s, i + 1, 1) {
            None => Err("unclosed `<`"@),
            Some(c) => {
                let pieces = split_top_v(s.subrange(i + 1, c), ',');
                match params_v(pieces, pieces.len() as int) {
                    Err(e) => Err(e),
                    Ok(ps) => Ok((ps, c + 1)),
                }
            },
        }
    } else {
        Ok((Seq::empty(), i))
    }
}

/// The first braced group at or after `k`.
pub open spec fn next_brace_from(s: Seq<TokV>, k: int) -> Option<int>
    decreases s.len() - k,
{
    if k < 0 || k >= s.len() {
        None
    } else if is_group_v(s[k], Delim::Brace) {
        Some(k)
    } else {
        next_brace_from(s, k + 1)
    }
}

pub open spec fn names_distinct(vs: Seq<VariantV>) -> bool {
    forall|a: int, b: int| 0 <= a < b < vs.len() ==> #[trigger] vs[a].name != #[trigger] vs[b].name
}

pub open spec fn plain_def_v(
    attrs: Seq<TokV>,
    vis: Seq<TokV>,
    name: Seq<char>,
    params: Seq<GenericParamV>,
    where_clause: Seq<TokV>,
    variants: Seq<VariantV>,
) -> Result<TypeDefV, Seq<char>> {
    if names_distinct(variants) {
        Ok(
            TypeDefV {
                attrs,
                vis,
                name,
                params,
                where_clause,
                variants,
                runtime: Seq::empty(),
                records: Seq::empty(),
                fields: Seq::empty(),
            },
        )
    } else {
        Err("duplicate variant name"@)
    }
}

/// Where the type run starting at `k` ends: at `as`, `|` or `;` outside angle brackets.
pub open spec fn run_end(s: Seq<TokV>, k: int, depth: nat) -> int
    decreases s.len() - k,
{
    if k < 0 || k >= s.len() {
        s.len() as int
    } else if depth == 0 && (s[k] == id_v("as"@) || is_punct_v(s[k], '|') || is_punct_v(s[k], ';')) {
        k
    } else {
        run_end(s, k + 1, angle_after_v(s, k, depth))
    }
}

/// The cases of a list form from `k` on, after the cases `acc`, and where the form ends.
pub open spec fn list_cases(s: Seq<TokV>, k: int, acc: Seq<VariantV>) -> Result<(Seq<VariantV>, int), SynErr>
    decreases s.len() - k,
{
    if k < 0 || k >= s.len() {
        Err(("expected `;`"@, clamp(s.len() as int, k)))
    } else {
        let e = run_end(s, k, 0);
        if e <= k {
            Err(("expected a type"@, k))
        } else if e >= s.len() {
            Err(("expected `;`"@, clamp(s.len() as int, e)))
        } else {
            let ty = s.subrange(k, e);
            let named: Result<(Seq<char>, int), SynErr> = if s[e] == id_v("as"@) {
                match ident_v(s, e + 1) {
                    None => Err(("expected an identifier"@, clamp(s.len() as int, e + 1))),
                    Some(n) => Ok((n, e + 2)),
                }
            } else if upper_camel_of(text_seq(ty)).len() == 0 {
                Err(("cannot name a case after its type"@, k))
            } else {
                Ok((upper_camel_of(text_seq(ty)), e))
            };
            match named {
                Err(m) => Err(m),
                Ok((n, k2)) => {
                    let acc2 = acc.push(VariantV { attrs: Seq::empty(), name: n, payload: canonical_v(ty) });
                    if k2 < s.len() && is_punct_v(s[k2], ';') {
                        Ok((acc2, k2 + 1))
                    } else if k2 < s.len() && is_punct_v(s[k2], '|') {
                        list_cases(s, k2 + 1, acc2)
                    } else {
                        Err(("expected `|` or `;`"@, clamp(s.len() as int, k2)))
                    }
                },
            }
        }
    }
}

/// The list form `type Name<..> = T1 [as A1] | .. ;` whose `type` is at `i`.
pub open spec fn list_form_v(s: Seq<TokV>, i: int, attrs: Seq<TokV>, vis: Seq<TokV>) -> Result<(TypeDefV, int), SynErr> {
    let n = s.len() as int;
    match ident_v(s, i + 1) {
        None => Err(("expected an identifier"@, clamp(n, i + 1))),
        Some(name) => match generics_v(s, i + 2) {
            Err(e) => Err((e, clamp(n, i + 2))),
            Ok((ps, k)) => if !(0 <= k < s.len() && is_punct_v(s[k], '=')) {
                Err(("expected `=`"@, clamp(n, k)))
            } else {
                match list_cases(s, k + 1, Seq::empty()) {
                    Err(e) => Err(e),
                    Ok((vs, j)) => match plain_def_v(attrs, vis, name, ps, Seq::empty(), vs) {
                        Err(e) => Err((e, i + 1)),
                        Ok(d) => Ok((d, j)),
                    },
                }
            },
        },
    }
}

/// One case `attrs Name(Type)` of a declared-case form.
pub open spec fn enum_case_v(piece: Seq<TokV>) -> Result<VariantV, Seq<char>> {
    let p = attrs_end(piece, 0);
    match ident_v(piece, p) {
        None => Err("expected an identifier"@),
        Some(n) => if piece.len() - p != 2 || !is_group_v(piece[p + 1], Delim::Paren) {
            Err("each case holds one payload type in parentheses"@)
        } else {
            let tys = split_top_v(piece[p + 1]->Group_1, ',');
            if tys.len() != 1 {
                Err("each case holds one payload type in parentheses"@)
            } else {
                Ok(VariantV { attrs: piece.subrange(0, p), name: n, payload: canonical_v(tys[0]) })
            }
        },
    }
}

pub open spec fn enum_cases_v(pieces: Seq<Seq<TokV>>, n: int) -> Result<Seq<VariantV>, Seq<char>>
    decreases n,
{
    if n <= 0 {
        Ok(Seq::empty())
    } else {
        match enum_cases_v(pieces, n - 1) {
            Err(e) => Err(e),
            Ok(vs) => match enum_case_v(pieces[n - 1]) {
                Err(e) => Err(e),
                Ok(v) => Ok(vs.push(v)),
            },
        }
    }
}

/// The declared-case form `enum Name<..> where .. { cases }` whose `enum` is at `i`.
pub open spec fn enum_form_v(s: Seq<TokV>, i: int, attrs: Seq<TokV>, vis: Seq<TokV>) -> Result<(TypeDefV, int), SynErr> {
    let n = s.len() as int;
    match ident_v(s, i + 1) {
        None => Err(("expected an identifier"@, clamp(n, i + 1))),
        Some(name) => match generics_v(s, i + 2) {
            Err(e) => Err((e, clamp(n, i + 2))),
            Ok((ps, k)) => match next_brace_from(s, k) {
                None => Err(("expected `{`"@, clamp(n, k))),
                Some(b) => if !(k == b || (k < b && s[k] == id_v("where"@))) {
                    Err(("expected `{`"@, k))
                } else {
                    let pieces = split_top_v(s[b]->Group_1, ',');
                    match enum_cases_v(pieces, pieces.len() as int) {
                        Err(e) => Err((e, b)),
                        Ok(vs) => match plain_def_v(attrs, vis, name, ps, s.subrange(k, b), vs) {
                            Err(e) => Err((e, b)),
                            Ok(d) => Ok((d, b + 1)),
                        },
                    }
                },
            },
        },
    }
}

pub open spec fn binding_v(p: Seq<TokV>) -> Result<BindingV, Seq<char>> {
    match ident_v(p, 0) {
        None => Err("expected an identifier"@),
        Some(key) => if !(p.len() > 2 && is_punct_v(p[1], '=')) {
            Err("expected `placeholder = type`"@)
        } else {
            Ok(BindingV { key, ty: p.subrange(2, p.len() as int) })
        },
    }
}

pub open spec fn bindings_v(pieces: Seq<Seq<TokV>>, n: int) -> Result<Seq<BindingV>, Seq<char>>
    decreases n,
{
    if n <= 0 {
        Ok(Seq::empty())
    } else {
        match bindings_v(pieces, n - 1) {
            Err(e) => Err(e),
            Ok(bs) => match binding_v(pieces[n - 1]) {
                Err(e) => Err(e),
                Ok(b) => Ok(bs.push(b)),
            },
        }
    }
}

/// The entries `attrs Name(T = A, ..)` of a variants clause from `k` on, after `acc`.
pub open spec fn records_from(s: Seq<TokV>, k: int, acc: Seq<RecordVariantV>) -> Result<Seq<RecordVariantV>, Seq<char>>
    decreases s.len() - k,
{
    if k < 0 || k >= s.len() {
        Ok(acc)
    } else {
        let p = attrs_end(s, k);
        match ident_v(s, p) {
            None => Err("expected an identifier"@),
            Some(name) => if p < k || p + 1 >= s.len() || !is_group_v(s[p + 1], Delim::Paren) {
                Err("expected a binding table in parentheses"@)
            } else {
                let pieces = split_top_v(s[p + 1]->Group_1, ',');
                match bindings_v(pieces, pieces.len() as int) {
                    Err(e) => Err(e),
                    Ok(bs) => {
                        let rv = RecordVariantV { attrs: s.subrange(k, p), name, bindings: bs };
                        let k3 = if p + 2 < s.len() && is_punct_v(s[p + 2], ',') {
                            p + 3
                        } else {
                            p + 2
                        };
                        records_from(s, k3, acc.push(rv))
                    },
                }
            },
        }
    }
}

/// The `:` that ends a field's name (not part of a `::`), from `k` on.
pub open spec fn field_colon_from(f: Seq<TokV>, k: int) -> Option<int>
    decreases f.len() - k,
{
    if k < 0 || k >= f.len() {
        None
    } else if f[k] == TokV::Punct(':', false) && !(k > 0 && f[k - 1] == TokV::Punct(':', true)) {
        Some(k)
    } else {
        field_colon_from(f, k + 1)
    }
}

pub open spec fn field_v(p: Seq<TokV>) -> Result<FieldV, Seq<char>> {
    match field_colon_from(p, 0) {
        None => Err("expected `name: type`"@),
        Some(c) => if c + 1 >= p.len() {
            Err("expected a field type"@)
        } else {
            Ok(FieldV { head: p.subrange(0, c + 1), ty: p.subrange(c + 1, p.len() as int) })
        },
    }
}

pub open spec fn fields_v(pieces: Seq<Seq<TokV>>, n: int) -> Result<Seq<FieldV>, Seq<char>>
    decreases n,
{
    if n <= 0 {
        Ok(Seq::empty())
    } else {
        match fields_v(pieces, n - 1) {
            Err(e) => Err(e),
            Ok(fs) => match field_v(pieces[n - 1]) {
                Err(e) => Err(e),
                Ok(f) => Ok(fs.push(f)),
            },
        }
    }
}

/// The names of the type parameters (single identifiers) among `ps`, in order.
pub open spec fn type_param_names_v(ps: Seq<GenericParamV>) -> Seq<Seq<char>>
    decreases ps.len(),
{
    if ps.len() == 0 {
        Seq::empty()
    } else {
        let p = ps.last();
        if p.is_type && p.name.len() == 1 && p.name[0] is Ident {
            type_param_names_v(ps.drop_last()).push(p.name[0]->Ident_0)
        } else {
            type_param_names_v(ps.drop_last())
        }
    }
}

pub open spec fn binds(bs: Seq<BindingV>, key: Seq<char>) -> bool {
    exists|b: int| 0 <= b < bs.len() && #[trigger] bs[b].key == key
}

/// Every binding table gives a type to every runtime placeholder.
pub open spec fn bindings_cover(rs: Seq<RecordVariantV>, runtime: Seq<Seq<char>>) -> bool {
    forall|j: int, q: int|
        0 <= j < rs.len() && 0 <= q < runtime.len() ==> #[trigger] binds(rs[j].bindings, #[trigger] runtime[q])
}

/// The payload of the record variant `rname` of `name`: `NameV::<..>`.
pub open spec fn record_payload_vv(name: Seq<char>, rname: Seq<char>, ps: Seq<GenericParamV>) -> Seq<TokV> {
    if ps.len() == 0 {
        seq![TokV::Ident(name + rname)]
    } else {
        seq![TokV::Ident(name + rname), TokV::Punct(':', true), TokV::Punct(':', false)] + angled(
            ps.map_values(|p: GenericParamV| p.name),
        )
    }
}

pub open spec fn record_variants_v(name: Seq<char>, ps: Seq<GenericParamV>, rs: Seq<RecordVariantV>) -> Seq<VariantV> {
    rs.map_values(
        |r: RecordVariantV|
            VariantV { attrs: Seq::empty(), name: r.name, payload: record_payload_vv(name, r.name, ps) },
    )
}

/// The end of reading a record form: every binding table must cover the runtime
/// placeholders, and the variant names must be distinct.
pub open spec fn struct_tail_v(
    attrs: Seq<TokV>,
    vis: Seq<TokV>,
    name: Seq<char>,
    ps: Seq<GenericParamV>,
    rt: Seq<GenericParamV>,
    rs: Seq<RecordVariantV>,
    fs: Seq<FieldV>,
    k2: int,
) -> Result<(TypeDefV, int), Seq<char>> {
    let runtime = type_param_names_v(rt);
    let vs = record_variants_v(name, ps, rs);
    if !bindings_cover(rs, runtime) {
        Err("a binding table gives no type for a runtime placeholder"@)
    } else if !names_distinct(vs) {
        Err("duplicate variant name"@)
    } else {
        Ok(
            (
                TypeDefV {
                    attrs,
                    vis,
                    name,
                    params: ps,
                    where_clause: Seq::empty(),
                    variants: vs,
                    runtime,
                    records: rs,
                    fields: fs,
                },
                k2 + 2,
            ),
        )
    }
}

/// The record form `struct Name<..> variants<..> { entries } { fields }` whose `struct`
/// is at `i`.
pub open spec fn struct_form_v(s: Seq<TokV>, i: int, attrs: Seq<TokV>, vis: Seq<TokV>) -> Result<(TypeDefV, int), SynErr> {
    let n = s.len() as int;
    match ident_v(s, i + 1) {
        None => Err(("expected an identifier"@, clamp(n, i + 1))),
        Some(name) => match generics_v(s, i + 2) {
            Err(e) => Err((e, clamp(n, i + 2))),
            Ok((ps, k)) => if !(0 <= k < s.len() && s[k] == id_v("variants"@)) {
                Err(("expected `variants`"@, clamp(n, k)))
            } else {
                match generics_v(s, k + 1) {
                    Err(e) => Err((e, clamp(n, k + 1))),
                    Ok((rt, k2)) => if 0 <= k2 < s.len() && s[k2] == id_v("where"@) {
                        Err(("where clause illegal for runtime generics"@, k2))
                    } else if !(0 <= k2 && k2 + 2 <= s.len()) || !is_group_v(s[k2], Delim::Brace) {
                        Err(("expected `{`"@, clamp(n, k2)))
                    } else {
                        match records_from(s[k2]->Group_1, 0, Seq::empty()) {
                            Err(e) => Err((e, k2)),
                            Ok(rs) => if !is_group_v(s[k2 + 1], Delim::Brace) {
                                Err(("expected `{`"@, k2 + 1))
                            } else {
                                let pieces = split_top_v(s[k2 + 1]->Group_1, ',');
                                match fields_v(pieces, pieces.len() as int) {
                                    Err(e) => Err((e, k2 + 1)),
                                    Ok(fs) => match struct_tail_v(attrs, vis, name, ps, rt, rs, fs, k2) {
                                        Err(e) => Err((e, k2)),
                                        Ok(r) => Ok(r),
                                    },
                                }
                            },
                        }
                    },
                }
            },
        },
    }
}

/// Where an item of a block ends (at `;` or a braced group), and its first `fn`.
pub open spec fn item_end_from(s: Seq<TokV>, e: int, f: Option<int>) -> (int, Option<int>)
    decreases s.len() - e,
{
    if e < 0 || e >= s.len() || is_punct_v(s[e], ';') || is_group_v(s[e], Delim::Brace) {
        (e, f)
    } else {
        item_end_from(s, e + 1, if f is None && s[e] == id_v("fn"@) { Some(e) } else { f })
    }
}

/// The item of a block that starts at `k` and ends with the token at `e`.
pub open spec fn block_item_v(s: Seq<TokV>, k: int, e: int, f: Option<int>) -> ImplItemV {
    match f {
        Some(fi) => if is_group_v(s[e], Delim::Brace) && k <= fi && fi + 1 < e && s[fi + 1] is Ident {
            ImplItemV::Method(
                MethodV {
                    head: s.subrange(k, fi + 1),
                    name: s[fi + 1]->Ident_0,
                    sig: s.subrange(fi + 2, e),
                    has_receiver: receiver_v(s.subrange(fi + 2, e)),
                    body: s[e]->Group_1,
                },
            )
        } else {
            ImplItemV::Other(s.subrange(k, e + 1))
        },
        None => ImplItemV::Other(s.subrange(k, e + 1)),
    }
}

/// The items of a block from `k` on, after `acc`.
pub open spec fn block_items_from(s: Seq<TokV>, k: int, acc: Seq<ImplItemV>) -> Result<Seq<ImplItemV>, Seq<char>>
    decreases s.len() - k,
{
    if k < 0 || k >= s.len() {
        Ok(acc)
    } else {
        let a = attrs_end(s, k);
        let (e, f) = item_end_from(s, a, None);
        if e < k || e >= s.len() {
            Err("expected an item of the block"@)
        } else {
            block_items_from(s, e + 1, acc.push(block_item_v(s, k, e, f)))
        }
    }
}

/// The first identifier among `s[q..to]`.
pub open spec fn first_ident_from(s: Seq<TokV>, q: int, to: int) -> Option<int>
    decreases to - q,
{
    if q < 0 || q >= to || q >= s.len() {
        None
    } else if s[q] is Ident {
        Some(q)
    } else {
        first_ident_from(s, q + 1, to)
    }
}

/// A template block `impl<..> Type<..> where .. { items }` whose `impl` is at `i`. A trait
/// impl (see [`trait_for_from`]) is refused, located at its `for`.
pub open spec fn impl_form_v(s: Seq<TokV>, i: int, attrs: Seq<TokV>) -> Result<(ImplBlockV, int), SynErr> {
    let n = s.len() as int;
    match generics_v(s, i + 1) {
        Err(e) => Err((e, clamp(n, i + 1))),
        Ok((_, k)) => match next_brace_from(s, k) {
            None => Err(("expected `{`"@, clamp(n, k))),
            Some(b) => match trait_for_from(s, k, b, 0) {
                Some(q) => Err(("impl for traits doesn't belong in summum block"@, q)),
                None => match first_ident_from(s, k, b) {
                    None => Err(("invalid type"@, clamp(n, k))),
                    Some(q) => match block_items_from(s[b]->Group_1, 0, Seq::empty()) {
                        Err(e) => Err((e, b)),
                        Ok(its) => Ok(
                            (
                                ImplBlockV {
                                    attrs,
                                    head: s.subrange(i, b),
                                    target: s[q]->Ident_0,
                                    items: its,
                                },
                                b + 1,
                            ),
                        ),
                    },
                },
            },
        },
    }
}

pub open spec fn unknown_form_msg() -> Seq<char> {
    "expected `enum`, `struct`, `type`, or `impl`"@
}

/// A union definition whose attributes end at `a`: the form is chosen by the token after
/// the visibility.
pub open spec fn def_v(s: Seq<TokV>, a: int, attrs: Seq<TokV>) -> Result<(TypeDefV, int), SynErr> {
    let v = vis_end(s, a);
    let vis = s.subrange(a, v);
    if v >= s.len() {
        Err((unknown_form_msg(), clamp(s.len() as int, v)))
    } else if s[v] == id_v("type"@) {
        list_form_v(s, v, attrs, vis)
    } else if s[v] == id_v("enum"@) {
        enum_form_v(s, v, attrs, vis)
    } else if s[v] == id_v("struct"@) {
        struct_form_v(s, v, attrs, vis)
    } else {
        Err((unknown_form_msg(), v))
    }
}

/// The items of a unit from `k` on, after those read; an error holds its message and
/// the index of the unit's token where reading failed.
pub open spec fn items_from(s: Seq<TokV>, k: int, types: Seq<TypeDefV>, impls: Seq<ImplBlockV>) -> Result<ItemsV, SynErr>
    decreases s.len() - k,
{
    if k < 0 || k >= s.len() {
        Ok(ItemsV { types, impls })
    } else {
        let a = attrs_end(s, k);
        let attrs = s.subrange(k, a);
        if a < s.len() && s[a] == id_v("impl"@) {
            match impl_form_v(s, a, attrs) {
                Err(e) => Err(e),
                Ok((b, next)) => if next <= k || next > s.len() {
                    Err((unknown_form_msg(), k))
                } else {
                    items_from(s, next, types, impls.push(b))
                },
            }
        } else {
            match def_v(s, a, attrs) {
                Err(e) => Err(e),
                Ok((d, next)) => if next <= k || next > s.len() {
                    Err((unknown_form_msg(), k))
                } else {
                    items_from(s, next, types.push(d), impls)
                },
            }
        }
    }
}

/// What reading a whole unit gives.
pub open spec fn parse_v(s: Seq<TokV>) -> Result<ItemsV, SynErr> {
    items_from(s, 0, Seq::empty(), Seq::empty())
}

pub open spec fn gp_view(g: GenericParam) -> GenericParamV {
    GenericParamV { decl: vv(g.decl), name: vv(g.name), is_type: g.is_type }
}

pub open spec fn variant_view(v: Variant) -> VariantV {
    VariantV { attrs: vv(v.attrs), name: v.name@, payload: vv(v.payload) }
}

pub open spec fn field_view(f: Field) -> FieldV {
    FieldV { head: vv(f.head), ty: vv(f.ty) }
}

pub open spec fn binding_view(b: Binding) -> BindingV {
    BindingV { key: b.key@, ty: vv(b.ty) }
}

pub open spec fn record_view(r: RecordVariant) -> RecordVariantV {
    RecordVariantV {
        attrs: vv(r.attrs),
        name: r.name@,
        bindings: r.bindings@.map_values(|b: Binding| binding_view(b)),
    }
}

pub open spec fn def_view(d: TypeDef) -> TypeDefV {
    TypeDefV {
        attrs: vv(d.attrs),
        vis: vv(d.vis),
        name: d.name@,
        params: d.generics.params@.map_values(|g: GenericParam| gp_view(g)),
        where_clause: vv(d.generics.where_clause),
        variants: d.variants@.map_values(|v: Variant| variant_view(v)),
        runtime: d.runtime@.map_values(|x: String| x@),
        records: d.records@.map_values(|r: RecordVariant| record_view(r)),
        fields: d.fields@.map_values(|f: Field| field_view(f)),
    }
}

pub open spec fn item_view(it: ImplItem) -> ImplItemV {
    match it {
        ImplItem::Method(m) => ImplItemV::Method(
            MethodV {
                head: vv(m.head),
                name: m.name@,
                sig: vv(m.sig),
                has_receiver: m.has_receiver,
                body: vv(m.body),
            },
        ),
        ImplItem::Other(t) => ImplItemV::Other(vv(t)),
    }
}

pub open spec fn block_view(b: ImplBlock) -> ImplBlockV {
    ImplBlockV {
        attrs: vv(b.attrs),
        head: vv(b.head),
        target: b.target@,
        items: b.items@.map_values(|it: ImplItem| item_view(it)),
    }
}

pub open spec fn items_view(items: Items) -> ItemsV {
    ItemsV {
        types: items.types@.map_values(|d: TypeDef| def_view(d)),
        impls: items.impls@.map_values(|b: ImplBlock| block_view(b)),
    }
}

pub open spec fn variants_view(vs: Seq<Variant>) -> Seq<VariantV> {
    vs.map_values(|v: Variant| variant_view(v))
}

pub open spec fn params_view(ps: Seq<GenericParam>) -> Seq<GenericParamV> {
    ps.map_values(|g: GenericParam| gp_view(g))
}

} // verus!
