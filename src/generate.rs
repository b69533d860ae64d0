//! One generation invocation: every definition registered first, then every definition
//! and every template block emitted.
use vstd::prelude::*;
use vstd::string::StringExecFns;
use crate::emit::{render_type, render_type_v};
use crate::model::{wf_def, ImplBlock, TypeDef};
use crate::grammar::{items_view, parse_v};
use crate::parse::{methods_marked, parse_items, Items, SyntaxError};
use crate::specialize::{impl_out_v, render_impl};
use crate::tokens::{vv, Tok, TokV};

verus! {

broadcast use vstd::std_specs::vec::group_vec_axioms, vstd::seq::group_seq_axioms;

/// The definitions of one invocation, by name; a later definition of a name replaces an
/// earlier one.
pub struct Registry {
    defs: Vec<TypeDef>,
}

pub open spec fn map_of(s: Seq<TypeDef>) -> Map<Seq<char>, TypeDef>
    decreases s.len(),
{
    if s.len() == 0 {
        Map::empty()
    } else {
        map_of(s.drop_last()).insert(s.last().name@, s.last())
    }
}

/// Whether no definition after `i` has its name.
pub open spec fn is_last(s: Seq<TypeDef>, i: int) -> bool {
    forall|j: int| i < j < s.len() ==> #[trigger] s[j].name@ != s[i].name@
}

proof fn lemma_map_of_found(s: Seq<TypeDef>, i: int)
    requires
        0 <= i < s.len(),
        is_last(s, i),
    ensures
        map_of(s).contains_key(s[i].name@),
        map_of(s)[s[i].name@] == s[i],
    decreases s.len(),
{
    if i < s.len() - 1 {
        assert(s.drop_last()[i] == s[i]);
        assert forall|j: int| i < j < s.drop_last().len() implies #[trigger] s.drop_last()[j].name@ != s.drop_last()[i].name@ by {
            assert(s[j] == s.drop_last()[j]);
        }
        lemma_map_of_found(s.drop_last(), i);
        assert(s[s.len() - 1].name@ != s[i].name@);
    }
}

proof fn lemma_map_of_absent(s: Seq<TypeDef>, k: Seq<char>)
    requires
        forall|j: int| 0 <= j < s.len() ==> #[trigger] s[j].name@ != k,
    ensures
        !map_of(s).contains_key(k),
    decreases s.len(),
{
    if s.len() > 0 {
        assert forall|j: int| 0 <= j < s.drop_last().len() implies #[trigger] s.drop_last()[j].name@ != k by {
            assert(s[j] == s.drop_last()[j]);
        }
        lemma_map_of_absent(s.drop_last(), k);
        assert(s[s.len() - 1].name@ != k);
    }
}

impl View for Registry {
    type V = Map<Seq<char>, TypeDef>;

    closed spec fn view(&self) -> Map<Seq<char>, TypeDef> {
        map_of(self.defs@)
    }
}

impl Registry {
    pub closed spec fn entries(&self) -> Seq<TypeDef> {
        self.defs@
    }

    /// An empty registry.
    pub fn new() -> (r: Registry)
        ensures
            r@ == Map::<Seq<char>, TypeDef>::empty(),
            r.entries().len() == 0,
    {
        Registry { defs: Vec::new() }
    }

    /// A registry of the definitions `defs`, registered in order.
    pub fn from_defs(defs: Vec<TypeDef>) -> (r: Registry)
        ensures
            r@ == map_of(defs@),
            r.entries() == defs@,
    {
        Registry { defs }
    }

    /// Registers a definition under its name.
    pub fn register(&mut self, d: TypeDef)
        ensures
            final(self)@ == old(self)@.insert(d.name@, d),
            final(self).entries() == old(self).entries().push(d),
    {
        let ghost old_defs = self.defs@;
        self.defs.push(d);
        assert(self.defs@.drop_last() =~= old_defs);
    }

    /// The definition registered under `name`.
    pub fn lookup(&self, name: &String) -> (r: Option<&TypeDef>)
        ensures
            r matches Some(d) ==> self@.contains_key(name@) && *d == self@[name@],
            r is None ==> !self@.contains_key(name@),
    {
        let mut i: usize = self.defs.len();
        while i > 0
            invariant
                i <= self.defs.len(),
                forall|j: int| i <= j < self.defs.len() ==> #[trigger] self.defs@[j].name@ != name@,
            decreases i,
        {
            i = i - 1;
            if self.defs[i].name == *name {
                proof {
                    lemma_map_of_found(self.defs@, i as int);
                }
                return Some(&self.defs[i]);
            }
        }
        proof {
            lemma_map_of_absent(self.defs@, name@);
        }
        None
    }
}

/// One piece of output: emitted tokens, or a diagnostic that stands in their place.
pub enum Emitted {
    Tokens(Vec<Tok>),
    Diagnostic(String),
}

pub enum EmittedV {
    Tokens(Seq<TokV>),
    Diagnostic(Seq<char>),
}

pub open spec fn emitted_v(e: Emitted) -> EmittedV {
    match e {
        Emitted::Tokens(t) => EmittedV::Tokens(vv(t)),
        Emitted::Diagnostic(m) => EmittedV::Diagnostic(m@),
    }
}

pub open spec fn emitted_seq(s: Seq<Emitted>) -> Seq<EmittedV> {
    s.map_values(|e: Emitted| emitted_v(e))
}

/// The definitions' output: each name once, from its last definition.
pub open spec fn types_out_v(defs: Seq<TypeDef>, n: int) -> Seq<EmittedV>
    decreases n,
{
    if n <= 0 {
        Seq::empty()
    } else if is_last(defs, n - 1) {
        types_out_v(defs, n - 1).push(EmittedV::Tokens(render_type_v(defs[n - 1])))
    } else {
        types_out_v(defs, n - 1)
    }
}

pub open spec fn unknown_type_msg() -> Seq<char> {
    "can't find definition for type in summum block"@
}

/// What one template block gives, against the registered definitions.
pub open spec fn impl_emitted_v(reg: Map<Seq<char>, TypeDef>, b: ImplBlock) -> EmittedV {
    if reg.contains_key(b.target@) {
        match impl_out_v(reg[b.target@], b) {
            Ok(t) => EmittedV::Tokens(t),
            Err(e) => EmittedV::Diagnostic(e),
        }
    } else {
        EmittedV::Diagnostic(unknown_type_msg())
    }
}

pub open spec fn impls_out_v(reg: Map<Seq<char>, TypeDef>, bs: Seq<ImplBlock>, n: int) -> Seq<EmittedV>
    decreases n,
{
    if n <= 0 {
        Seq::empty()
    } else {
        impls_out_v(reg, bs, n - 1).push(impl_emitted_v(reg, bs[n - 1]))
    }
}

/// The output of a generation unit: the definitions', then each template block's.
pub open spec fn generate_v(items: Items) -> Seq<EmittedV> {
    types_out_v(items.types@, items.types.len() as int) + impls_out_v(
        map_of(items.types@),
        items.impls@,
        items.impls.len() as int,
    )
}

fn is_last_exec(defs: &Vec<TypeDef>, i: usize) -> (r: bool)
    requires
        i < defs.len(),
    ensures
        r == is_last(defs@, i as int),
{
    let mut j: usize = i + 1;
    while j < defs.len()
        invariant
            i < j <= defs.len(),
            forall|k: int| i < k < j ==> #[trigger] defs@[k].name@ != defs@[i as int].name@,
        decreases defs.len() - j,
    {
        if defs[j].name == defs[i].name {
            return false;
        }
        j = j + 1;
    }
    true
}

/// Emits a parsed generation unit; see [`generate_v`].
pub fn generate(items: Items) -> (r: Vec<Emitted>)
    ensures
        emitted_seq(r@) == generate_v(items),
{
    let mut out: Vec<Emitted> = Vec::new();
    assert(emitted_seq(out@) =~= Seq::<EmittedV>::empty());
    let mut i: usize = 0;
    while i < items.types.len()
        invariant
            i <= items.types.len(),
            emitted_seq(out@) == types_out_v(items.types@, i as int),
        decreases items.types.len() - i,
    {
        if is_last_exec(&items.types, i) {
            let ghost o = out@;
            let e = Emitted::Tokens(render_type(&items.types[i]));
            out.push(e);
            assert(emitted_seq(out@) =~= emitted_seq(o).push(emitted_v(e)));
        }
        i = i + 1;
    }
    let ghost head = emitted_seq(out@);
    let ghost all = items;
    let Items { types, impls } = items;
    let reg = Registry::from_defs(types);
    let mut k: usize = 0;
    while k < impls.len()
        invariant
            k <= impls.len(),
            impls == all.impls,
            reg@ == map_of(all.types@),
            emitted_seq(out@) == head + impls_out_v(map_of(all.types@), impls@, k as int),
        decreases impls.len() - k,
    {
        let b = &impls[k];
        let e = match reg.lookup(&b.target) {
            Some(d) => match render_impl(d, b) {
                Ok(t) => Emitted::Tokens(t),
                Err(m) => Emitted::Diagnostic(m),
            },
            None => Emitted::Diagnostic(String::from_str("can't find definition for type in summum block")),
        };
        let ghost o = out@;
        out.push(e);
        assert(emitted_seq(out@) =~= emitted_seq(o).push(emitted_v(e)));
        k = k + 1;
    }
    assert(emitted_seq(out@) =~= generate_v(all));
    out
}

/// Runs one generation invocation on the tokens of one unit: reads it by the grammar
/// [`parse_v`], then emits every definition and every template block ([`generate_v`]).
/// A unit the grammar refuses is a syntax error, with the grammar's message and the
/// index of the item that failed, and nothing is emitted.
pub fn summum(input: &Vec<Tok>) -> (r: Result<Vec<Emitted>, SyntaxError>)
    ensures
        r is Ok <==> parse_v(vv(*input)) is Ok,
        r matches Err(e) ==> parse_v(vv(*input))->Err_0 == (e.message@, e.at as int) && e.at < input.len(),
        r matches Ok(out) ==> exists|items: Items|
            items_view(items) == parse_v(vv(*input))->Ok_0
            && (forall|t: int| 0 <= t < items.types.len() ==> wf_def(#[trigger] items.types@[t]))
                && (forall|t: int|
                0 <= t < items.impls.len() ==> methods_marked((#[trigger] items.impls@[t]).items@))
                && emitted_seq(out@) == generate_v(items),
{
    let items = parse_items(input)?;
    let out = generate(items);
    Ok(out)
}

} // verus!
