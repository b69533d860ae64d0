//! The internal representation of a union definition.
use vstd::prelude::*;
use crate::tokens::{lemma_toks_v_push, push_all, vv, Tok, TokV};

verus! {

broadcast use vstd::std_specs::vec::group_vec_axioms, vstd::seq::group_seq_axioms;

/// One generic parameter.
pub struct GenericParam {
    /// The parameter as declared, bounds kept and any default dropped (`T: Clone`).
    pub decl: Vec<Tok>,
    /// The parameter as it is used (`T`, `'a`, `N`).
    pub name: Vec<Tok>,
    /// Whether it is a type parameter (not a lifetime or a constant).
    pub is_type: bool,
}

/// A generic parameter list and the where-clause that goes with it.
pub struct Generics {
    pub params: Vec<GenericParam>,
    /// `where ...`, or nothing.
    pub where_clause: Vec<Tok>,
}

/// One case of a union: a name and its payload type.
pub struct Variant {
    /// Outer attributes written before the case.
    pub attrs: Vec<Tok>,
    pub name: String,
    pub payload: Vec<Tok>,
}

/// One field of a record-form template: everything before its type (attributes,
/// visibility, name and colon), and its type.
pub struct Field {
    pub head: Vec<Tok>,
    pub ty: Vec<Tok>,
}

/// A runtime placeholder and the type it stands for in one record variant.
pub struct Binding {
    pub key: String,
    pub ty: Vec<Tok>,
}

/// The binding table of one record variant.
pub struct RecordVariant {
    pub attrs: Vec<Tok>,
    pub name: String,
    pub bindings: Vec<Binding>,
}

/// A union definition.
pub struct TypeDef {
    /// Outer attributes forwarded to the emitted declarations.
    pub attrs: Vec<Tok>,
    /// The visibility, as written (possibly nothing).
    pub vis: Vec<Tok>,
    pub name: String,
    pub generics: Generics,
    pub variants: Vec<Variant>,
    /// Record form only: the runtime placeholders, one binding table per variant, and
    /// the shared field template.
    pub runtime: Vec<String>,
    pub records: Vec<RecordVariant>,
    pub fields: Vec<Field>,
}

/// One method of a template block.
pub struct Method {
    /// Everything before the method's name: attributes, visibility, qualifiers, `fn`.
    pub head: Vec<Tok>,
    pub name: String,
    /// Everything between the name and the body: generics, parameters, return type and
    /// where-clause.
    pub sig: Vec<Tok>,
    /// Whether the first parameter is a receiver (`self`, `&self`, `&mut self`, ..).
    pub has_receiver: bool,
    /// What the body's braces hold.
    pub body: Vec<Tok>,
}

/// One item of a template block: a method to specialise, or anything else, kept as is.
pub enum ImplItem {
    Method(Method),
    Other(Vec<Tok>),
}

/// A method-template block, bound by name to a union definition.
pub struct ImplBlock {
    /// Outer attributes of the block.
    pub attrs: Vec<Tok>,
    /// `impl<..> Type<..> where ..`: everything before the block's braces.
    pub head: Vec<Tok>,
    /// The name of the union the block is for.
    pub target: String,
    pub items: Vec<ImplItem>,
}

/// The payload type of record variant `j`: `NameV::<..>` (or `NameV` without generics).
pub open spec fn record_payload_v(d: TypeDef, j: int) -> Seq<TokV> {
    let n = TokV::Ident(d.name@ + d.records@[j].name@);
    if d.generics.params.len() == 0 {
        seq![n]
    } else {
        seq![n, TokV::Punct(':', true), TokV::Punct(':', false)] + angled(names_of_params(d.generics))
    }
}

/// Variant names are unique.
pub open spec fn names_unique(d: TypeDef) -> bool {
    forall|i: int, j: int|
        0 <= i < j < d.variants.len() ==> #[trigger] d.variants@[i].name@ != #[trigger] d.variants@[j].name@
}

pub open spec fn has_binding(r: RecordVariant, key: Seq<char>) -> bool {
    exists|b: int| 0 <= b < r.bindings.len() && #[trigger] r.bindings@[b].key@ == key
}

/// Every binding table gives a value to every runtime placeholder.
pub open spec fn bindings_complete(d: TypeDef) -> bool {
    forall|j: int, k: int|
        0 <= j < d.records.len() && 0 <= k < d.runtime.len() ==> #[trigger] has_binding(
            d.records@[j],
            #[trigger] d.runtime@[k]@,
        )
}

/// The record form's variants are its binding tables' names, each with its record type.
pub open spec fn records_match(d: TypeDef) -> bool {
    d.records.len() > 0 ==> (d.variants.len() == d.records.len() && forall|j: int|
        0 <= j < d.records.len() ==> (#[trigger] d.variants@[j]).name@ == d.records@[j].name@
            && vv(d.variants@[j].payload) == record_payload_v(d, j))
}

/// A well-formed definition.
pub open spec fn wf_def(d: TypeDef) -> bool {
    names_unique(d) && bindings_complete(d) && records_match(d)
}

pub open spec fn decls_v(g: Generics) -> Seq<Seq<TokV>> {
    g.params@.map_values(|p: GenericParam| vv(p.decl))
}

pub open spec fn names_of_params(g: Generics) -> Seq<Seq<TokV>> {
    g.params@.map_values(|p: GenericParam| vv(p.name))
}

/// The items of `s` separated by commas.
pub open spec fn comma_join(s: Seq<Seq<TokV>>) -> Seq<TokV>
    decreases s.len(),
{
    if s.len() == 0 {
        Seq::empty()
    } else if s.len() == 1 {
        s[0]
    } else {
        comma_join(s.drop_last()) + seq![TokV::Punct(',', false)] + s.last()
    }
}

/// `<items>`, or nothing where there are no items.
pub open spec fn angled(s: Seq<Seq<TokV>>) -> Seq<TokV> {
    if s.len() == 0 {
        Seq::empty()
    } else {
        seq![TokV::Punct('<', false)] + comma_join(s) + seq![TokV::Punct('>', false)]
    }
}

/// The generics of an impl header: `<'a, T: Clone>`.
pub open spec fn impl_generics_v(g: Generics) -> Seq<TokV> {
    angled(decls_v(g))
}

/// The generics of a use of the type: `<'a, T>`.
pub open spec fn type_generics_v(g: Generics) -> Seq<TokV> {
    angled(names_of_params(g))
}

pub open spec fn where_v(g: Generics) -> Seq<TokV> {
    vv(g.where_clause)
}

fn join_params(g: &Generics, decl: bool) -> (r: Vec<Tok>)
    ensures
        vv(r) == angled(if decl { decls_v(*g) } else { names_of_params(*g) }),
{
    let ghost items = if decl { decls_v(*g) } else { names_of_params(*g) };
    let mut r: Vec<Tok> = Vec::new();
    if g.params.len() == 0 {
        return r;
    }
    r.push(Tok::Punct('<', false));
    proof {
        lemma_toks_v_push(Seq::empty(), Tok::Punct('<', false));
        assert(Seq::<Tok>::empty().push(Tok::Punct('<', false)) =~= r@);
    }
    let mut i: usize = 0;
    while i < g.params.len()
        invariant
            items == if decl { decls_v(*g) } else { names_of_params(*g) },
            items.len() == g.params.len(),
            0 < g.params.len(),
            i <= g.params.len(),
            vv(r) == seq![TokV::Punct('<', false)] + comma_join(items.subrange(0, i as int)),
        decreases g.params.len() - i,
    {
        let ghost before = vv(r);
        if i > 0 {
            proof {
                lemma_toks_v_push(r@, Tok::Punct(',', false));
            }
            r.push(Tok::Punct(',', false));
        }
        let part = if decl { &g.params[i].decl } else { &g.params[i].name };
        push_all(&mut r, part);
        proof {
            let s = items.subrange(0, i + 1);
            assert(s.drop_last() =~= items.subrange(0, i as int));
            assert(items[i as int] == vv(*part));
            if i == 0 {
                assert(vv(r) =~= seq![TokV::Punct('<', false)] + comma_join(s));
            } else {
                assert(vv(r) =~= seq![TokV::Punct('<', false)] + comma_join(s));
            }
        }
        i = i + 1;
    }
    proof {
        lemma_toks_v_push(r@, Tok::Punct('>', false));
        assert(items.subrange(0, items.len() as int) =~= items);
    }
    r.push(Tok::Punct('>', false));
    assert(vv(r) =~= angled(items));
    r
}

impl Generics {
    /// `<'a, T: Clone>`, or nothing.
    pub fn impl_generics(&self) -> (r: Vec<Tok>)
        ensures
            vv(r) == impl_generics_v(*self),
    {
        join_params(self, true)
    }

    /// `<'a, T>`, or nothing.
    pub fn type_generics(&self) -> (r: Vec<Tok>)
        ensures
            vv(r) == type_generics_v(*self),
    {
        join_params(self, false)
    }
}

} // verus!
