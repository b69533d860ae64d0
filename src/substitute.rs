//! Identifier substitution through a whole token tree.
use vstd::prelude::*;
use vstd::string::StrSliceExecFns;
use vstd::string::StringExecFns;
use crate::casing::{snake_name, snake_name_spec};
use crate::tokens::{copy_tok, lemma_toks_v_all, lemma_toks_v_prefix, lemma_toks_v_push, push_all, tok_v, toks_v, vv, Tok, TokV};

verus! {

broadcast use vstd::std_specs::vec::group_vec_axioms, vstd::seq::group_seq_axioms;

/// Every identifier `name` is replaced by the tokens `with`.
pub struct Rule {
    pub name: String,
    pub with: Vec<Tok>,
}

/// A substitution: exact-name rules, tried in order, and optionally the family rule,
/// which renames an identifier ending in `_inner_var` after the variant it holds.
pub struct Subst {
    pub rules: Vec<Rule>,
    pub family: Option<String>,
}

pub type RulesV = Seq<(Seq<char>, Seq<TokV>)>;

pub open spec fn rule_v(r: Rule) -> (Seq<char>, Seq<TokV>) {
    (r.name@, vv(r.with))
}

impl View for Subst {
    type V = (RulesV, Option<Seq<char>>);

    open spec fn view(&self) -> Self::V {
        (
            self.rules@.map_values(|r: Rule| rule_v(r)),
            match self.family {
                Some(f) => Some(f@),
                None => None,
            },
        )
    }
}

/// The suffix that marks an identifier to be renamed after the current variant.
pub open spec fn family_suffix() -> Seq<char> {
    "_inner_var"@
}

pub open spec fn ends_with(s: Seq<char>, suf: Seq<char>) -> bool {
    suf.len() <= s.len() && s.subrange(s.len() - suf.len(), s.len() as int) == suf
}

pub open spec fn strip_end(s: Seq<char>, suf: Seq<char>) -> Seq<char> {
    s.subrange(0, s.len() - suf.len())
}

/// The replacement of the first rule for `name`.
pub open spec fn lookup(rules: RulesV, name: Seq<char>) -> Option<Seq<TokV>>
    decreases rules.len(),
{
    if rules.len() == 0 {
        None
    } else if rules[0].0 == name {
        Some(rules[0].1)
    } else {
        lookup(rules.drop_first(), name)
    }
}

/// What an identifier becomes.
pub open spec fn subst_ident(name: Seq<char>, rules: RulesV, family: Option<Seq<char>>) -> Seq<TokV> {
    match lookup(rules, name) {
        Some(w) => w,
        None => match family {
            Some(v) => if ends_with(name, family_suffix()) {
                seq![TokV::Ident(snake_name_spec(strip_end(name, family_suffix()), v))]
            } else {
                seq![TokV::Ident(name)]
            },
            None => seq![TokV::Ident(name)],
        },
    }
}

/// What one token tree becomes: identifiers are replaced, groups rewritten inside,
/// everything else kept.
pub open spec fn subst_tok(t: TokV, rules: RulesV, family: Option<Seq<char>>) -> Seq<TokV>
    decreases t,
{
    match t {
        TokV::Ident(n) => subst_ident(n, rules, family),
        TokV::Group(d, s) => seq![TokV::Group(d, subst_seq(s, rules, family))],
        _ => seq![t],
    }
}

/// What a token sequence becomes.
pub open spec fn subst_seq(s: Seq<TokV>, rules: RulesV, family: Option<Seq<char>>) -> Seq<TokV>
    decreases s,
{
    if s.len() == 0 {
        Seq::empty()
    } else {
        subst_seq(s.drop_last(), rules, family) + subst_tok(s.last(), rules, family)
    }
}

pub proof fn lemma_subst_seq_push(s: Seq<TokV>, t: TokV, rules: RulesV, family: Option<Seq<char>>)
    ensures
        subst_seq(s.push(t), rules, family) == subst_seq(s, rules, family) + subst_tok(t, rules, family),
{
    assert(s.push(t).drop_last() =~= s);
}

fn find_rule(rules: &Vec<Rule>, name: &String) -> (r: Option<usize>)
    ensures
        match r {
            Some(i) => i < rules.len() && lookup(rules@.map_values(|r: Rule| rule_v(r)), name@)
                == Some(vv(rules@[i as int].with)),
            None => lookup(rules@.map_values(|r: Rule| rule_v(r)), name@) is None,
        },
{
    let ghost rv = rules@.map_values(|r: Rule| rule_v(r));
    let mut i: usize = 0;
    assert(rv.subrange(0, rv.len() as int) =~= rv);
    while i < rules.len()
        invariant
            i <= rules.len(),
            rv == rules@.map_values(|r: Rule| rule_v(r)),
            lookup(rv, name@) == lookup(rv.subrange(i as int, rv.len() as int), name@),
        decreases rules.len() - i,
    {
        let ghost rest = rv.subrange(i as int, rv.len() as int);
        assert(rest[0] == rule_v(rules@[i as int]));
        if rules[i].name == *name {
            return Some(i);
        }
        assert(rest.drop_first() =~= rv.subrange(i + 1, rv.len() as int));
        i = i + 1;
    }
    None
}

/// The text before `suf`, where `s` ends with it.
pub(crate) fn strip_suffix(s: &String, suf: &str) -> (r: Option<String>)
    ensures
        r is Some <==> ends_with(s@, suf@),
        r is Some ==> r->0@ == strip_end(s@, suf@),
{
    let n = s.as_str().unicode_len();
    let m = suf.unicode_len();
    if m > n {
        return None;
    }
    let mut k: usize = 0;
    while k < m
        invariant
            m <= n,
            n == s@.len(),
            m == suf@.len(),
            k <= m,
            forall|j: int| 0 <= j < k ==> s@[n - m + j] == suf@[j],
        decreases m - k,
    {
        if s.as_str().get_char(n - m + k) != suf.get_char(k) {
            assert(s@.subrange(n - m, n as int)[k as int] != suf@[k as int]);
            return None;
        }
        k = k + 1;
    }
    assert(s@.subrange(n - m, n as int) =~= suf@);
    let p = s.as_str().substring_char(0, n - m);
    Some(String::from_str(p))
}

/// Rewrites a token sequence through `sub`, recursively inside every group.
pub fn replace_idents(input: &Vec<Tok>, sub: &Subst) -> (r: Vec<Tok>)
    ensures
        vv(r) == subst_seq(vv(*input), sub@.0, sub@.1),
    decreases input,
{
    let ghost rules = sub@.0;
    let ghost family = sub@.1;
    let mut out: Vec<Tok> = Vec::new();
    let mut i: usize = 0;
    while i < input.len()
        invariant
            i <= input.len(),
            rules == sub@.0,
            family == sub@.1,
            vv(out) == subst_seq(toks_v(input@.subrange(0, i as int)), rules, family),
        decreases input.len() - i,
    {
        proof {
            lemma_toks_v_prefix(input@, i as int);
            lemma_subst_seq_push(toks_v(input@.subrange(0, i as int)), tok_v(input@[i as int]), rules, family);
        }
        let ghost before = vv(out);
        match &input[i] {
            Tok::Ident(name) => {
                match find_rule(&sub.rules, name) {
                    Some(k) => {
                        push_all(&mut out, &sub.rules[k].with);
                    },
                    None => {
                        let mut done = false;
                        match &sub.family {
                            Some(v) => {
                                proof {
                                    reveal_strlit("_inner_var");
                                }
                                match strip_suffix(name, "_inner_var") {
                                    Some(p) => {
                                        let n = snake_name(p.as_str(), v.as_str());
                                        let t = Tok::Ident(n);
                                        proof {
                                            lemma_toks_v_push(out@, t);
                                        }
                                        out.push(t);
                                        done = true;
                                    },
                                    None => {},
                                }
                            },
                            None => {},
                        }
                        if !done {
                            let t = Tok::Ident(name.clone());
                            proof {
                                lemma_toks_v_push(out@, t);
                            }
                            out.push(t);
                        }
                    },
                }
            },
            Tok::Group(d, inner) => {
                assert(decreases_to!(input => input@[i as int]));
                let g = replace_idents(inner, sub);
                let t = Tok::Group(*d, g);
                proof {
                    lemma_toks_v_push(out@, t);
                }
                out.push(t);
            },
            _ => {
                let t = copy_tok(&input[i]);
                proof {
                    lemma_toks_v_push(out@, t);
                }
                out.push(t);
            },
        }
        proof {
            assert(vv(out) =~= before + subst_tok(tok_v(input@[i as int]), rules, family));
        }
        i = i + 1;
    }
    proof {
        lemma_toks_v_all(input@);
    }
    out
}

} // verus!
