//! The token-tree model the generator reads and writes.
use vstd::prelude::*;
use vstd::string::StringExecFns;

verus! {

broadcast use vstd::std_specs::vec::group_vec_axioms, vstd::seq::group_seq_axioms;

/// The delimiter of a nested group of tokens.
#[derive(Clone, Copy, PartialEq, Eq, Structural, Debug)]
pub enum Delim {
    Paren,
    Brace,
    Bracket,
    Invisible,
}

/// One token tree: a leaf or a delimited group of further trees.
#[derive(Debug)]
pub enum Tok {
    /// An identifier or keyword.
    Ident(String),
    /// A punctuation character; the flag says it is joined to the punctuation after it
    /// (as the two characters of `::` or `=>`).
    Punct(char, bool),
    /// A literal, written as its source text (a string literal keeps its quotes).
    Lit(String),
    /// A delimited group.
    Group(Delim, Vec<Tok>),
}

/// The mathematical value of a token tree.
pub enum TokV {
    Ident(Seq<char>),
    Punct(char, bool),
    Lit(Seq<char>),
    Group(Delim, Seq<TokV>),
}

pub open spec fn tok_v(t: Tok) -> TokV
    decreases t,
{
    match t {
        Tok::Ident(s) => TokV::Ident(s@),
        Tok::Punct(c, j) => TokV::Punct(c, j),
        Tok::Lit(s) => TokV::Lit(s@),
        Tok::Group(d, v) => TokV::Group(d, toks_v(v@)),
    }
}

pub open spec fn toks_v(s: Seq<Tok>) -> Seq<TokV>
    decreases s,
{
    if s.len() == 0 {
        Seq::empty()
    } else {
        toks_v(s.drop_last()).push(tok_v(s.last()))
    }
}

impl View for Tok {
    type V = TokV;

    open spec fn view(&self) -> TokV {
        tok_v(*self)
    }
}

/// The value of a token vector.
pub open spec fn vv(v: Vec<Tok>) -> Seq<TokV> {
    toks_v(v@)
}

pub proof fn lemma_toks_v(s: Seq<Tok>)
    ensures
        toks_v(s).len() == s.len(),
        forall|i: int| 0 <= i < s.len() ==> #[trigger] toks_v(s)[i] == tok_v(s[i]),
    decreases s.len(),
{
    if s.len() > 0 {
        lemma_toks_v(s.drop_last());
    }
}

pub proof fn lemma_toks_v_push(s: Seq<Tok>, t: Tok)
    ensures
        toks_v(s.push(t)) == toks_v(s).push(tok_v(t)),
{
    assert(s.push(t).drop_last() =~= s);
}

pub proof fn lemma_toks_v_prefix(s: Seq<Tok>, i: int)
    requires
        0 <= i < s.len(),
    ensures
        toks_v(s.subrange(0, i + 1)) == toks_v(s.subrange(0, i)).push(tok_v(s[i])),
{
    assert(s.subrange(0, i + 1) =~= s.subrange(0, i).push(s[i]));
    lemma_toks_v_push(s.subrange(0, i), s[i]);
}

pub proof fn lemma_toks_v_all(s: Seq<Tok>)
    ensures
        toks_v(s.subrange(0, s.len() as int)) == toks_v(s),
{
    assert(s.subrange(0, s.len() as int) =~= s);
}

/// A copy of a token tree with the same value.
pub fn copy_tok(t: &Tok) -> (r: Tok)
    ensures
        r@ == t@,
    decreases t,
{
    match t {
        Tok::Ident(s) => Tok::Ident(s.clone()),
        Tok::Punct(c, j) => Tok::Punct(*c, *j),
        Tok::Lit(s) => Tok::Lit(s.clone()),
        Tok::Group(d, v) => {
            let r = copy_toks(v);
            Tok::Group(*d, r)
        },
    }
}

/// A copy of a token sequence with the same value.
pub fn copy_toks(v: &Vec<Tok>) -> (r: Vec<Tok>)
    ensures
        vv(r) == vv(*v),
    decreases v,
{
    let mut r: Vec<Tok> = Vec::new();
    let mut i: usize = 0;
    while i < v.len()
        invariant
            i <= v.len(),
            toks_v(r@) == toks_v(v@.subrange(0, i as int)),
        decreases v.len() - i,
    {
        assert(decreases_to!(v => v@[i as int]));
        let t = copy_tok(&v[i]);
        proof {
            lemma_toks_v_push(r@, t);
            assert(v@.subrange(0, i + 1) =~= v@.subrange(0, i as int).push(v@[i as int]));
            lemma_toks_v_push(v@.subrange(0, i as int), v@[i as int]);
        }
        r.push(t);
        i = i + 1;
    }
    assert(v@.subrange(0, v.len() as int) =~= v@);
    r
}

/// Appends a copy of every token of `src` to `dst`.
pub fn push_all(dst: &mut Vec<Tok>, src: &Vec<Tok>)
    ensures
        vv(*final(dst)) == vv(*old(dst)) + vv(*src),
{
    let ghost d0 = dst@;
    let mut i: usize = 0;
    while i < src.len()
        invariant
            i <= src.len(),
            toks_v(dst@) == toks_v(d0) + toks_v(src@.subrange(0, i as int)),
        decreases src.len() - i,
    {
        let t = copy_tok(&src[i]);
        proof {
            lemma_toks_v_push(dst@, t);
            assert(src@.subrange(0, i + 1) =~= src@.subrange(0, i as int).push(src@[i as int]));
            lemma_toks_v_push(src@.subrange(0, i as int), src@[i as int]);
        }
        dst.push(t);
        i = i + 1;
    }
    assert(src@.subrange(0, src.len() as int) =~= src@);
}

/// An identifier token.
pub fn ident(s: &str) -> (r: Tok)
    ensures
        r@ == TokV::Ident(s@),
{
    Tok::Ident(String::from_str(s))
}

/// A punctuation token that stands alone.
pub fn punct(c: char) -> (r: Tok)
    ensures
        r@ == TokV::Punct(c, false),
{
    Tok::Punct(c, false)
}

pub open spec fn quoted(s: Seq<char>) -> Seq<char> {
    seq!['"'] + s + seq!['"']
}

/// A string literal holding `s` (which holds no quote or backslash).
pub fn str_lit(s: &str) -> (r: Tok)
    ensures
        r@ == TokV::Lit(quoted(s@)),
{
    let q = String::from_str("\"");
    proof {
        reveal_strlit("\"");
    }
    let mut t = q.clone();
    t.append(s);
    t.append(q.as_str());
    assert(t@ =~= quoted(s@));
    Tok::Lit(t)
}

/// The tokens of `name!("msg");`.
pub open spec fn macro_stmt_v(name: Seq<char>, msg: Seq<char>) -> Seq<TokV> {
    seq![
        TokV::Ident(name),
        TokV::Punct('!', false),
        TokV::Group(Delim::Paren, seq![TokV::Lit(quoted(msg))]),
        TokV::Punct(';', false),
    ]
}

/// The statement `name!("msg");`, with a message that holds no quote or backslash.
pub fn macro_stmt(name: &str, msg: &str) -> (r: Vec<Tok>)
    ensures
        vv(r) == macro_stmt_v(name@, msg@),
{
    let mut args: Vec<Tok> = Vec::new();
    args.push(str_lit(msg));
    let mut r: Vec<Tok> = Vec::new();
    r.push(ident(name));
    r.push(punct('!'));
    r.push(Tok::Group(Delim::Paren, args));
    r.push(punct(';'));
    proof {
        reveal_with_fuel(toks_v, 5);
        assert(toks_v(args@) =~= seq![TokV::Lit(quoted(msg@))]);
        assert(toks_v(r@) =~= macro_stmt_v(name@, msg@));
    }
    r
}

pub open spec fn id_v(s: Seq<char>) -> TokV {
    TokV::Ident(s)
}

pub open spec fn pc_v(c: char) -> TokV {
    TokV::Punct(c, false)
}

pub open spec fn pj_v(c: char) -> TokV {
    TokV::Punct(c, true)
}

/// `::`
pub open spec fn colon2_v() -> Seq<TokV> {
    seq![pj_v(':'), pc_v(':')]
}

/// `->`
pub open spec fn arrow_v() -> Seq<TokV> {
    seq![pj_v('-'), pc_v('>')]
}

/// `=>`
pub open spec fn fat_arrow_v() -> Seq<TokV> {
    seq![pj_v('='), pc_v('>')]
}

pub fn put_ident(out: &mut Vec<Tok>, s: &str)
    ensures
        vv(*final(out)) == vv(*old(out)).push(id_v(s@)),
{
    let t = ident(s);
    proof {
        lemma_toks_v_push(out@, t);
    }
    out.push(t);
}

pub fn put_name(out: &mut Vec<Tok>, s: &String)
    ensures
        vv(*final(out)) == vv(*old(out)).push(id_v(s@)),
{
    let t = Tok::Ident(s.clone());
    proof {
        lemma_toks_v_push(out@, t);
    }
    out.push(t);
}

pub fn put_punct(out: &mut Vec<Tok>, c: char)
    ensures
        vv(*final(out)) == vv(*old(out)).push(pc_v(c)),
{
    proof {
        lemma_toks_v_push(out@, Tok::Punct(c, false));
    }
    out.push(Tok::Punct(c, false));
}

pub fn put_joint(out: &mut Vec<Tok>, c: char)
    ensures
        vv(*final(out)) == vv(*old(out)).push(pj_v(c)),
{
    proof {
        lemma_toks_v_push(out@, Tok::Punct(c, true));
    }
    out.push(Tok::Punct(c, true));
}

pub fn put_group(out: &mut Vec<Tok>, d: Delim, inner: Vec<Tok>)
    ensures
        vv(*final(out)) == vv(*old(out)).push(TokV::Group(d, vv(inner))),
{
    let t = Tok::Group(d, inner);
    proof {
        lemma_toks_v_push(out@, t);
    }
    out.push(t);
}

pub fn put_str_lit(out: &mut Vec<Tok>, s: &str)
    ensures
        vv(*final(out)) == vv(*old(out)).push(TokV::Lit(quoted(s@))),
{
    let t = str_lit(s);
    proof {
        lemma_toks_v_push(out@, t);
    }
    out.push(t);
}

pub fn put_colon2(out: &mut Vec<Tok>)
    ensures
        vv(*final(out)) == vv(*old(out)) + colon2_v(),
{
    put_joint(out, ':');
    put_punct(out, ':');
}

pub fn put_arrow(out: &mut Vec<Tok>)
    ensures
        vv(*final(out)) == vv(*old(out)) + arrow_v(),
{
    put_joint(out, '-');
    put_punct(out, '>');
}

pub fn put_fat_arrow(out: &mut Vec<Tok>)
    ensures
        vv(*final(out)) == vv(*old(out)) + fat_arrow_v(),
{
    put_joint(out, '=');
    put_punct(out, '>');
}

/// Whether `t` is the identifier `s`.
pub fn is_ident(t: &Tok, s: &str) -> (r: bool)
    ensures
        r == (t@ == TokV::Ident(s@)),
{
    match t {
        Tok::Ident(x) => {
            let y = String::from_str(s);
            *x == y
        },
        _ => false,
    }
}

/// Whether `t` is the punctuation character `c`, joined or not.
pub fn is_punct(t: &Tok, c: char) -> (r: bool)
    ensures
        r == (t@ is Punct && t@->Punct_0 == c),
{
    match t {
        Tok::Punct(x, _) => *x == c,
        _ => false,
    }
}

} // verus!
