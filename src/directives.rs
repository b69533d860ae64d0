//! The directives a method template may hold: `summum_restrict!(A, ..)`,
//! `summum_exclude!(A, ..)` and `summum_variant_name!()`, resolved for one variant.
use vstd::prelude::*;
use vstd::string::StringExecFns;
use crate::tokens::{
    copy_tok, is_ident, is_punct, lemma_toks_v, lemma_toks_v_push, macro_stmt,
    macro_stmt_v, push_all, quoted, str_lit, tok_v, toks_v, vv, Delim, Tok, TokV,
};

verus! {

broadcast use vstd::std_specs::vec::group_vec_axioms, vstd::seq::group_seq_axioms;

pub open spec fn names_v(v: Seq<String>) -> Seq<Seq<char>> {
    v.map_values(|x: String| x@)
}

pub enum DirKind {
    Exclude,
    Restrict,
    VariantName,
}

pub open spec fn directive_kind(n: Seq<char>) -> Option<DirKind> {
    if n == "summum_exclude"@ {
        Some(DirKind::Exclude)
    } else if n == "summum_restrict"@ {
        Some(DirKind::Restrict)
    } else if n == "summum_variant_name"@ {
        Some(DirKind::VariantName)
    } else {
        None
    }
}

/// The identifiers of a comma-separated list (a trailing comma allowed), if it is one.
pub open spec fn arg_names(s: Seq<TokV>) -> Option<Seq<Seq<char>>>
    decreases s.len(),
{
    if s.len() == 0 {
        Some(Seq::empty())
    } else if s[0] is Ident {
        if s.len() == 1 {
            Some(seq![s[0]->Ident_0])
        } else if s[1] is Punct && s[1]->Punct_0 == ',' {
            match arg_names(s.subrange(2, s.len() as int)) {
                Some(rest) => Some(seq![s[0]->Ident_0] + rest),
                None => None,
            }
        } else {
            None
        }
    } else {
        None
    }
}

/// Whether the rest of the body is cut off for `branch`.
pub open spec fn cuts(k: DirKind, args: Seq<Seq<char>>, branch: Seq<char>) -> bool {
    match k {
        DirKind::Exclude => args.contains(branch),
        DirKind::Restrict => !args.contains(branch),
        DirKind::VariantName => false,
    }
}

pub open spec fn cut_message(n: Seq<char>, branch: Seq<char>) -> Seq<char> {
    "internal error: encountered "@ + n + " on "@ + branch + " branch"@
}

pub open spec fn is_group(t: TokV) -> bool {
    t is Group
}

pub open spec fn group_body(t: TokV) -> Seq<TokV> {
    t->Group_1
}

/// Resolves the directives of `s` from position `i` on, for the variant `branch`, with
/// `acc` what the positions before `i` gave. A directive that cuts the body off turns
/// the level it stands at into one braced group: what came before it, then a panic.
/// An error is a diagnostic message.
pub open spec fn resolve_from(s: Seq<TokV>, i: int, acc: Seq<TokV>, branch: Seq<char>) -> Result<
    Seq<TokV>,
    Seq<char>,
>
    decreases s, s.len() - i,
{
    if i < 0 || i >= s.len() {
        Ok(acc)
    } else {
        match s[i] {
            TokV::Ident(n) => match directive_kind(n) {
                None => resolve_from(s, i + 1, acc.push(s[i]), branch),
                Some(k) => if !(i + 1 < s.len() && s[i + 1] is Punct && s[i + 1]->Punct_0 == '!') {
                    Err("expecting !"@)
                } else if !(i + 2 < s.len() && is_group(s[i + 2])) {
                    Err("Expecting tuple for macro args"@)
                } else {
                    match arg_names(group_body(s[i + 2])) {
                        None => Err("expecting a list of variant names"@),
                        Some(args) => {
                            let next = if i + 3 < s.len() && s[i + 3] is Punct && s[i + 3]->Punct_0
                                == ';' {
                                i + 4
                            } else {
                                i + 3
                            };
                            if k is VariantName {
                                resolve_from(s, next, acc.push(TokV::Lit(quoted(branch))), branch)
                            } else if cuts(k, args, branch) {
                                Ok(
                                    seq![
                                        TokV::Group(
                                            Delim::Brace,
                                            acc + macro_stmt_v("panic"@, cut_message(n, branch)),
                                        ),
                                    ],
                                )
                            } else {
                                resolve_from(s, next, acc, branch)
                            }
                        },
                    }
                },
            },
            TokV::Group(d, inner) => match resolve_from(inner, 0, Seq::empty(), branch) {
                Err(e) => Err(e),
                Ok(r) => resolve_from(s, i + 1, acc.push(TokV::Group(d, r)), branch),
            },
            _ => resolve_from(s, i + 1, acc.push(s[i]), branch),
        }
    }
}

/// The directives of a body resolved for the variant `branch`.
pub open spec fn resolve_spec(s: Seq<TokV>, branch: Seq<char>) -> Result<Seq<TokV>, Seq<char>> {
    resolve_from(s, 0, Seq::empty(), branch)
}

fn directive_of(t: &Tok) -> (r: Option<DirKind>)
    ensures
        t@ is Ident ==> r == directive_kind(t@->Ident_0),
        !(t@ is Ident) ==> r is None,
{
    if is_ident(t, "summum_exclude") {
        Some(DirKind::Exclude)
    } else if is_ident(t, "summum_restrict") {
        Some(DirKind::Restrict)
    } else if is_ident(t, "summum_variant_name") {
        Some(DirKind::VariantName)
    } else {
        None
    }
}

/// Reads the comma-separated identifiers of a directive's arguments.
pub fn parse_arg_names(s: &Vec<Tok>) -> (r: Option<Vec<String>>)
    ensures
        match r {
            Some(v) => arg_names(vv(*s)) == Some(names_v(v@)),
            None => arg_names(vv(*s)) is None,
        },
{
    let ghost sv = vv(*s);
    proof {
        lemma_toks_v(s@);
    }
    let mut out: Vec<String> = Vec::new();
    let mut i: usize = 0;
    assert(sv.subrange(0, sv.len() as int) =~= sv);
    while i < s.len()
        invariant
            sv == vv(*s),
            sv.len() == s.len(),
            forall|j: int| 0 <= j < s.len() ==> #[trigger] sv[j] == tok_v(s@[j]),
            i <= s.len(),
            arg_names(sv) == match arg_names(sv.subrange(i as int, sv.len() as int)) {
                Some(rest) => Some(names_v(out@) + rest),
                None => None,
            },
        decreases s.len() - i,
    {
        let ghost rest = sv.subrange(i as int, sv.len() as int);
        match &s[i] {
            Tok::Ident(n) => {
                let ghost o = out@;
                if i + 1 == s.len() {
                    assert(arg_names(rest) == Some(seq![n@]));
                    out.push(n.clone());
                    assert(names_v(out@) =~= names_v(o) + seq![n@]);
                    return Some(out);
                }
                if !is_punct(&s[i + 1], ',') {
                    assert(rest[1] == sv[i + 1]);
                    return None;
                }
                assert(rest.subrange(2, rest.len() as int) =~= sv.subrange(i + 2, sv.len() as int));
                out.push(n.clone());
                assert(names_v(out@) =~= names_v(o) + seq![n@]);
                i = i + 2;
                proof {
                    match arg_names(sv.subrange(i as int, sv.len() as int)) {
                        Some(r2) => {
                            assert(names_v(o) + (seq![n@] + r2) =~= names_v(out@) + r2);
                        },
                        None => {},
                    }
                }
            },
            _ => {
                assert(rest[0] == sv[i as int]);
                return None;
            },
        }
    }
    assert(names_v(out@) + Seq::<Seq<char>>::empty() =~= names_v(out@));
    Some(out)
}

fn contains_name(v: &Vec<String>, b: &String) -> (r: bool)
    ensures
        r == names_v(v@).contains(b@),
{
    let mut i: usize = 0;
    while i < v.len()
        invariant
            i <= v.len(),
            forall|j: int| 0 <= j < i ==> v@[j]@ != b@,
        decreases v.len() - i,
    {
        if v[i] == *b {
            assert(names_v(v@)[i as int] == b@);
            return true;
        }
        i = i + 1;
    }
    proof {
        if names_v(v@).contains(b@) {
            let j = choose|j: int| 0 <= j < v.len() && #[trigger] names_v(v@)[j] == b@;
            assert(v@[j]@ == b@);
        }
    }
    false
}

fn message(n: &String, branch: &String) -> (r: String)
    ensures
        r@ == cut_message(n@, branch@),
{
    let mut m = String::from_str("internal error: encountered ");
    m.append(n.as_str());
    m.append(" on ");
    m.append(branch.as_str());
    m.append(" branch");
    assert(m@ =~= cut_message(n@, branch@));
    m
}

/// Resolves the directives of a method body for the variant `branch`; see
/// [`resolve_spec`]. An error is a diagnostic message.
pub fn resolve_directives(input: &Vec<Tok>, branch: &String) -> (r: Result<Vec<Tok>, String>)
    ensures
        match r {
            Ok(v) => resolve_spec(vv(*input), branch@) == Ok::<Seq<TokV>, Seq<char>>(vv(v)),
            Err(e) => resolve_spec(vv(*input), branch@) == Err::<Seq<TokV>, Seq<char>>(e@),
        },
    decreases input,
{
    let ghost s = vv(*input);
    proof {
        lemma_toks_v(input@);
    }
    let mut acc: Vec<Tok> = Vec::new();
    let mut i: usize = 0;
    while i < input.len()
        invariant
            s == vv(*input),
            s.len() == input.len(),
            forall|j: int| 0 <= j < input.len() ==> #[trigger] s[j] == tok_v(input@[j]),
            i <= input.len(),
            resolve_spec(s, branch@) == resolve_from(s, i as int, vv(acc), branch@),
        decreases input.len() - i,
    {
        let ghost before = vv(acc);
        match directive_of(&input[i]) {
            None => {
                match &input[i] {
                    Tok::Group(d, inner) => {
                        assert(decreases_to!(input => input@[i as int]));
                        let r = resolve_directives(inner, branch);
                        match r {
                            Err(e) => {
                                return Err(e);
                            },
                            Ok(v) => {
                                let t = Tok::Group(*d, v);
                                proof {
                                    lemma_toks_v_push(acc@, t);
                                }
                                acc.push(t);
                            },
                        }
                    },
                    _ => {
                        let t = copy_tok(&input[i]);
                        proof {
                            lemma_toks_v_push(acc@, t);
                        }
                        acc.push(t);
                    },
                }
                i = i + 1;
            },
            Some(k) => {
                let n = match &input[i] {
                    Tok::Ident(n) => n,
                    _ => {
                        return Err(String::new());
                    },
                };
                if !(i + 1 < input.len() && is_punct(&input[i + 1], '!')) {
                    return Err(String::from_str("expecting !"));
                }
                let body = match (i + 2 < input.len(), if i + 2 < input.len() {
                    Some(&input[i + 2])
                } else {
                    None
                }) {
                    (true, Some(Tok::Group(_, b))) => b,
                    _ => {
                        return Err(String::from_str("Expecting tuple for macro args"));
                    },
                };
                let args = match parse_arg_names(body) {
                    Some(a) => a,
                    None => {
                        return Err(String::from_str("expecting a list of variant names"));
                    },
                };
                let next = if i + 3 < input.len() && is_punct(&input[i + 3], ';') {
                    i + 4
                } else {
                    i + 3
                };
                match k {
                    DirKind::VariantName => {
                        let t = str_lit(branch.as_str());
                        proof {
                            lemma_toks_v_push(acc@, t);
                        }
                        acc.push(t);
                    },
                    _ => {
                        let listed = contains_name(&args, branch);
                        let cut = match k {
                            DirKind::Exclude => listed,
                            _ => !listed,
                        };
                        if cut {
                            let m = message(n, branch);
                            let p = macro_stmt("panic", m.as_str());
                            let ghost a0 = acc@;
                            push_all(&mut acc, &p);
                            let mut out: Vec<Tok> = Vec::new();
                            let g = Tok::Group(Delim::Brace, acc);
                            proof {
                                lemma_toks_v_push(out@, g);
                                assert(toks_v(Seq::<Tok>::empty()) =~= Seq::<TokV>::empty());
                            }
                            out.push(g);
                            proof {
                                assert(toks_v(out@) =~= seq![TokV::Group(Delim::Brace, before + macro_stmt_v("panic"@, cut_message(n@, branch@)))]);
                            }
                            return Ok(out);
                        }
                    },
                }
                i = next;
            },
        }
    }
    Ok(acc)
}

} // verus!
