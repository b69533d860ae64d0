//! The source text of a token sequence, as the host prints it.
use vstd::prelude::*;
use vstd::string::StringExecFns;
use crate::tokens::{lemma_toks_v, lemma_toks_v_prefix, tok_v, toks_v, vv, Delim, Tok, TokV};

verus! {

broadcast use vstd::std_specs::vec::group_vec_axioms, vstd::seq::group_seq_axioms;

/// Relies on `String::push`: the character is appended.
#[verifier::external_body]
fn push_char(s: &mut String, c: char)
    ensures
        final(s)@ == old(s)@.push(c),
{
    s.push(c);
}

pub open spec fn open_text(d: Delim) -> Seq<char> {
    match d {
        Delim::Paren => seq!['('],
        Delim::Brace => seq!['{'],
        Delim::Bracket => seq!['['],
        Delim::Invisible => Seq::empty(),
    }
}

pub open spec fn close_text(d: Delim) -> Seq<char> {
    match d {
        Delim::Paren => seq![')'],
        Delim::Brace => seq!['}'],
        Delim::Bracket => seq![']'],
        Delim::Invisible => Seq::empty(),
    }
}

pub open spec fn is_joint(t: TokV) -> bool {
    t is Punct && t->Punct_1
}

/// The text of one token tree.
pub open spec fn text_tok(t: TokV) -> Seq<char>
    decreases t,
{
    match t {
        TokV::Ident(s) => s,
        TokV::Punct(c, _) => seq![c],
        TokV::Lit(s) => s,
        TokV::Group(d, s) => open_text(d) + text_seq(s) + close_text(d),
    }
}

/// The text of a token sequence: the tokens' texts, a space between two tokens unless
/// the first is punctuation joined to the next.
pub open spec fn text_seq(s: Seq<TokV>) -> Seq<char>
    decreases s,
{
    if s.len() == 0 {
        Seq::empty()
    } else if s.len() == 1 {
        text_tok(s[0])
    } else {
        text_seq(s.drop_last()) + (if is_joint(s[s.len() - 2]) {
            Seq::empty()
        } else {
            seq![' ']
        }) + text_tok(s.last())
    }
}

fn delim_text(d: Delim, open: bool) -> (r: String)
    ensures
        r@ == if open { open_text(d) } else { close_text(d) },
{
    let mut r = String::new();
    match d {
        Delim::Paren => push_char(&mut r, if open { '(' } else { ')' }),
        Delim::Brace => push_char(&mut r, if open { '{' } else { '}' }),
        Delim::Bracket => push_char(&mut r, if open { '[' } else { ']' }),
        Delim::Invisible => {},
    }
    assert(r@ =~= if open { open_text(d) } else { close_text(d) });
    r
}

/// The text of a token sequence; see [`text_seq`].
pub fn tokens_text(v: &Vec<Tok>) -> (r: String)
    ensures
        r@ == text_seq(vv(*v)),
    decreases v,
{
    let mut r = String::new();
    proof {
        lemma_toks_v(v@);
    }
    let mut i: usize = 0;
    assert(toks_v(v@.subrange(0, 0)) =~= Seq::<TokV>::empty());
    while i < v.len()
        invariant
            i <= v.len(),
            r@ == text_seq(toks_v(v@.subrange(0, i as int))),
        decreases v.len() - i,
    {
        proof {
            lemma_toks_v_prefix(v@, i as int);
            lemma_toks_v(v@.subrange(0, i as int));
        }
        let ghost pre = toks_v(v@.subrange(0, i as int));
        let ghost next = pre.push(tok_v(v@[i as int]));
        assert(next.drop_last() =~= pre);
        if i > 0 {
            let joint = match &v[i - 1] {
                Tok::Punct(_, j) => *j,
                _ => false,
            };
            assert(pre[i - 1] == tok_v(v@[i - 1]));
            if !joint {
                push_char(&mut r, ' ');
            }
        }
        let ghost r1 = r@;
        let piece = match &v[i] {
            Tok::Ident(s) => s.clone(),
            Tok::Punct(c, _) => {
                let mut p = String::new();
                push_char(&mut p, *c);
                assert(p@ =~= seq![*c]);
                p
            },
            Tok::Lit(s) => s.clone(),
            Tok::Group(d, inner) => {
                assert(decreases_to!(v => v@[i as int]));
                let mut o = delim_text(*d, true);
                let m = tokens_text(inner);
                let c = delim_text(*d, false);
                o.append(m.as_str());
                o.append(c.as_str());
                o
            },
        };
        assert(piece@ == text_tok(tok_v(v@[i as int])));
        r.append(piece.as_str());
        assert(next[next.len() - 1] == tok_v(v@[i as int]));
        if i > 0 {
            assert(next[i - 1] == pre[i - 1]);
            assert(r@ =~= text_seq(next));
        } else {
            assert(r1 =~= Seq::<char>::empty());
            assert(r@ =~= text_seq(next));
        }
        i = i + 1;
    }
    assert(v@.subrange(0, v.len() as int) =~= v@);
    r
}

} // verus!
