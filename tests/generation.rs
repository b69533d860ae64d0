use proc_macro2::{Delimiter, Spacing, TokenStream, TokenTree};
use summum_types::generate::{summum, Emitted, Registry};
use summum_types::parse::parse_items;
use summum_types::text::tokens_text;
use summum_types::tokens::{Delim, Tok};

fn convert(ts: TokenStream) -> Vec<Tok> {
    ts.into_iter()
        .map(|tt| match tt {
            TokenTree::Ident(i) => Tok::Ident(i.to_string()),
            TokenTree::Punct(p) => Tok::Punct(p.as_char(), p.spacing() == Spacing::Joint),
            TokenTree::Literal(l) => Tok::Lit(l.to_string()),
            TokenTree::Group(g) => {
                let d = match g.delimiter() {
                    Delimiter::Parenthesis => Delim::Paren,
                    Delimiter::Brace => Delim::Brace,
                    Delimiter::Bracket => Delim::Bracket,
                    Delimiter::None => Delim::Invisible,
                };
                Tok::Group(d, convert(g.stream()))
            }
        })
        .collect()
}

fn lex(src: &str) -> Vec<Tok> {
    convert(src.parse::<TokenStream>().expect("test input lexes"))
}

fn expand(src: &str) -> Vec<Emitted> {
    match summum(&lex(src)) {
        Ok(out) => out,
        Err(e) => panic!("syntax error: {}", e.message),
    }
}

fn squash(s: &str) -> String {
    s.chars().filter(|c| !c.is_whitespace()).collect()
}

fn output_text(out: &[Emitted]) -> String {
    let mut s = String::new();
    for e in out {
        match e {
            Emitted::Tokens(t) => s.push_str(&tokens_text(t)),
            Emitted::Diagnostic(m) => {
                s.push_str("DIAGNOSTIC: ");
                s.push_str(m);
            }
        }
        s.push('\n');
    }
    s
}

fn has(out: &[Emitted], snippet: &str) -> bool {
    squash(&output_text(out)).contains(&squash(snippet))
}

fn diagnostics(out: &[Emitted]) -> Vec<String> {
    out.iter()
        .filter_map(|e| match e {
            Emitted::Diagnostic(m) => Some(m.clone()),
            _ => None,
        })
        .collect()
}

#[test]
fn simple_sum_type() {
    let out = expand("enum SumType { String(String), Int(i64), }");
    // the caller writes `let _sum: SumType = 42.into();`: 42 is an i64
    assert!(has(&out, "impl From<i64> for SumType { fn from(val: i64) -> Self { SumType::Int(val) } }"));
    assert!(has(&out, "impl From<String> for SumType"));
    assert!(has(&out, "enum SumType { String(String), Int(i64) }"));
}

#[test]
fn haskell_style_simple() {
    let out = expand("type HaslellSumType = String | i64;");
    // `"Hello".to_string().into()` converts through the `String` case
    assert!(has(&out, "enum HaslellSumType { String(String), I64(i64) }"));
    assert!(has(&out, "impl From<String> for HaslellSumType"));
    assert!(has(&out, "\"String\", \"I64\""));
}

#[test]
fn enum_with_generics_and_derives() {
    let out = expand(
        "#[derive(Debug, Clone)]
        enum VecOrV<V> where V: Default {
            Vec(Vec<V>),
            V(V),
        }

        impl<V> VecOrV<V> where V: Default {
            fn default_inner_var() -> Self {
                InnerT::default().into()
            }
        }",
    );
    // `vec![42].into()` converts through the `Vec` case
    assert!(has(&out, "#[derive(Debug, Clone)] enum VecOrV<V> where V: Default { Vec(Vec::<V>), V(V) }"));
    assert!(has(&out, "impl<V> From<Vec::<V>> for VecOrV<V> where V: Default"));
    assert!(has(&out, "for Vec::<V> where V: Default"));
    assert!(!has(&out, "TryFrom<VecOrV<V>> for V where"));
    assert!(has(&out, "fn default_vec() -> Self { { Vec::<V>::default().into() } }"));
    assert!(has(&out, "fn default_v() -> Self { { V::default().into() } }"));
    assert!(diagnostics(&out).is_empty());
}

#[test]
fn enum_with_lifetime_and_impl() {
    let out = expand(
        "#[derive(Debug, Clone)]
        enum SliceOrPie<'a, T> {
            Slice(&'a [T]),
            Vec(Vec<T>),
        }

        impl<'a, T> SliceOrPie<'a, T> {
            fn get(&self, idx: usize) -> Option<&T> {
                self.get(idx)
            }
        }",
    );
    // `sop.get(0)` on a value made from `vec![42]` runs the `Vec` arm
    assert!(has(&out, "impl<'a, T> From<Vec::<T>> for SliceOrPie<'a, T>"));
    assert!(has(
        &out,
        "impl<'a, T> SliceOrPie<'a, T> { fn get(&self, idx: usize) -> Option<&T> { match self {
            Self::Slice(_summum_self) => { { _summum_self.get(idx) } },
            Self::Vec(_summum_self) => { { _summum_self.get(idx) } } } } }"
    ));
}

#[test]
fn haskell_with_generics_and_as() {
    let out = expand(
        "#[derive(Debug, Clone)]
        type HaskellNestedOrNotRef<'a, V> = &'a Vec<V> as Vec |
                                            &'a V as V;",
    );
    assert!(has(&out, "Self::Vec(_) => \"Vec\""));
    assert!(has(&out, "enum HaskellNestedOrNotRef<'a, V> { Vec(&'a Vec<V>), V(&'a V) }"));
    assert!(has(&out, "TryFrom<HaskellNestedOrNotRef<'a, V>> for &'a Vec<V>"));
    assert!(!has(&out, "TryFrom<HaskellNestedOrNotRef<'a, V>> for &'a V {"));
    // the caller converts `vec![42]` by reference and asks for its variant's name
    assert!(has(&out, "\"Vec\", \"V\""));
}

const NUM: &str = "
    #[derive(Debug)]
    enum Num {
        F64(f64),
        I64(i64),
    }

    enum NumVec {
        F64(Vec<f64>),
        I64(Vec<i64>),
    }

    impl Num {
        #[allow(dead_code)]
        fn max_inner_var() -> Self {
            InnerT::MAX.into()
        }
        #[allow(dead_code)]
        fn multiply_add_one_inner_var(&self, multiplier: InnerT) -> InnerT {
            *self * multiplier + 1 as InnerT
        }
    }

    impl NumVec {
        fn push(&mut self, item: Num) {
            let val = item.into_inner_var();
            self.push(val);
        }
        #[allow(dead_code)]
        fn get_inner_var(&self, idx: usize) -> Option<Num> {
            self.get(idx).map(|r| (*r).into())
        }
    }
";

#[test]
fn cross_type_interop() {
    let out = expand(NUM);
    assert!(diagnostics(&out).is_empty());
    assert!(has(&out, "#[allow(dead_code)] fn max_i64() -> Self { { i64::MAX.into() } }"));
    assert!(has(
        &out,
        "fn multiply_add_one_f64(&self, multiplier: f64) -> f64 { match self {
            Self::F64(_summum_self) => { { *_summum_self * multiplier + 1 as f64 } },
            _ => panic!(\"`{}::{}` method must be called with corresponding inner type\", \"Num\", \"multiply_add_one_f64\") } }"
    ));
    assert!(has(
        &out,
        "Self::I64(_summum_self) => { { let val = item.into_i64(); _summum_self.push(val); } }"
    ));
    // `vec.push(42.into())` then `vec.get_i64(0)` reads it back
    assert!(has(&out, "fn get_i64(&self, idx: usize) -> Option<Num> { match self { Self::I64(_summum_self) => { { _summum_self.get(idx).map(|r| (*r).into()) } }"));
}

const NUM_AGAIN: &str = "
    #[derive(Debug, PartialEq)]
    enum NumAgain {
        F64(f64),
        I64(i64),
    }

    impl NumAgain {
        fn multiply_int_only(&self, other: i64) -> Self {
            summum_restrict!(I64);
            (*self * other).into()
        }
        fn convert_to_float_without_rounding(&self) -> f64 {
            if *self > i32::MAX as InnerT {
                summum_exclude!(I64, );
                *self as f64
            } else {
                *self as f64
            }
        }
    }
";

#[test]
fn restrict_and_exclude() {
    let out = expand(NUM_AGAIN);
    assert!(diagnostics(&out).is_empty());
    // an i64 runs the body as written
    assert!(has(&out, "Self::I64(_summum_self) => { { (*_summum_self * other).into() } }"));
    assert!(has(
        &out,
        "Self::F64(_summum_self) => { { { panic!(\"internal error: encountered summum_restrict on F64 branch\"); } } }"
    ));
    // a value such as 120000000 fits an i32 and takes the `else` branch; a larger i64
    // reaches the exclusion and panics
    assert!(has(
        &out,
        "Self::I64(_summum_self) => { { if *_summum_self > i32::MAX as i64 { { panic!(\"internal error: encountered summum_exclude on I64 branch\"); } } else { *_summum_self as f64 } } }"
    ));
    assert!(has(
        &out,
        "Self::F64(_summum_self) => { { if *_summum_self > i32::MAX as f64 { *_summum_self as f64 } else { *_summum_self as f64 } } }"
    ));
}

const EM: &str = "
    #[allow(dead_code)]
    #[derive(Clone)]
    struct EM<V> variants<T> {
        #[derive(Default)]
        Nested(T=Self),
        #[derive(Default)]
        Not(T=V),
    } {
        apps: Option<Box<Self>>,
        inners: Vec<InnerT>,
        vars: Vec<T>,
    }

    impl<V> EM<V> where V: Default {
        fn default_a_inner_var() -> Self {
            InnerT::default().into()
        }
        fn default_b_inner_var() -> Self {
            Self::default_a_inner_var().into_inner_var()
        }
    }
";

#[test]
fn validate_sub_type_structures() {
    let out = expand(EM);
    assert!(diagnostics(&out).is_empty());
    assert!(has(
        &out,
        "#[allow(dead_code)] #[derive(Clone)] #[derive(Default)] struct EMNot<V> { apps: Option<Box<EM<V>>>, inners: Vec<Self>, vars: Vec<V> }"
    ));
    assert!(has(
        &out,
        "struct EMNested<V> { apps: Option<Box<EM<V>>>, inners: Vec<Self>, vars: Vec<EM<V>> }"
    ));
    // an `EMNot::<usize>` holding `vec![42]` converts into the union
    assert!(has(&out, "impl<V> From<EMNot::<V>> for EM<V>"));
    assert!(has(&out, "enum EM<V> { Nested(EMNested::<V>), Not(EMNot::<V>) }"));
    assert!(has(&out, "fn default_a_not() -> Self { { EMNot::<V>::default().into() } }"));
    assert!(has(&out, "fn default_b_nested() -> Self { { Self::default_a_nested().into_nested() } }"));
}

const NUM_MAX: &str = "
    enum Num {
        F64(f64),
        I64(i64),
    }

    impl Num {
        fn max_inner_var() -> Self {
            InnerT::MAX.into()
        }
    }
";

#[test]
fn family_template_gives_one_function_per_variant() {
    let out = expand(NUM_MAX);
    assert!(has(&out, "impl Num { fn max_f64() -> Self { { f64::MAX.into() } } fn max_i64() -> Self { { i64::MAX.into() } } }"));
    assert!(!has(&out, "fn max("));
    assert!(!has(&out, "fn max_inner_var"));
}

#[test]
fn record_variants_get_their_own_types() {
    let out = expand(
        "struct NestedOrNot<V> variants<T> {
            Nested(T=Self),
            Not(T=V),
        } {
            children: Vec<InnerT>,
            vars: Vec<T>,
        }",
    );
    assert!(has(&out, "struct NestedOrNotNested<V> { children: Vec<Self>, vars: Vec<NestedOrNot<V>> }"));
    assert!(has(&out, "struct NestedOrNotNot<V> { children: Vec<Self>, vars: Vec<V> }"));
    assert!(has(&out, "impl<V> From<NestedOrNotNested::<V>> for NestedOrNot<V>"));
    assert!(has(&out, "impl<V> From<NestedOrNotNot::<V>> for NestedOrNot<V>"));
}

#[test]
fn conversion_and_borrow_name_the_same_variant() {
    let out = expand(NUM_MAX);
    assert!(has(&out, "impl From<f64> for Num { fn from(val: f64) -> Self { Num::F64(val) } }"));
    assert!(has(&out, "pub fn try_as_f64(&self) -> Option<&f64> { match self { Self::F64(val) => Some(val), _ => None } }"));
    assert!(has(&out, "pub fn try_as_mut_i64(&mut self) -> Option<&mut i64> { match self { Self::I64(val) => Some(val), _ => None } }"));
    assert!(has(&out, "pub fn try_into_i64(self) -> core::result::Result<i64, Self> { match self { Self::I64(val) => Ok(val), _ => Err(self) } }"));
}

#[test]
fn panicking_accessors_name_expected_and_found_variants() {
    let out = expand(NUM_MAX);
    assert!(has(
        &out,
        "pub fn as_f64(&self) -> &f64 { self.try_as_f64().unwrap_or_else(|| panic!(\"invalid downcast: Num::{} expecting F64 found {}\", \"as_f64\", self.variant_name())) }"
    ));
    assert!(has(
        &out,
        "pub fn as_mut_i64(&mut self) -> &mut i64 { let variant_name = self.variant_name(); self.try_as_mut_i64().unwrap_or_else(|| panic!(\"invalid downcast: Num::{} expecting I64 found {}\", \"as_mut_i64\", variant_name)) }"
    ));
    assert!(has(
        &out,
        "pub fn into_i64(self) -> i64 { self.try_into_i64().unwrap_or_else(|t| panic!(\"invalid downcast: Num::{} expecting I64 found {}\", \"into_i64\", t.variant_name())) }"
    ));
    assert!(has(&out, "pub fn is_f64(&self) -> bool { match self { Self::F64(_) => true, _ => false } }"));
}

#[test]
fn variants_are_listed_in_declaration_order() {
    let out = expand("enum Three { C(u8), A(u16), B(u32) }");
    assert!(has(&out, "pub const fn variants() -> &'static [&'static str] { &[\"C\", \"A\", \"B\"] }"));
    assert!(has(
        &out,
        "pub fn variant_name(&self) -> &'static str { match self { Self::C(_) => \"C\", Self::A(_) => \"A\", Self::B(_) => \"B\" } }"
    ));
}

#[test]
fn reverse_conversion_left_out_for_generic_payloads() {
    let out = expand("enum G<'a, T> { A(T), B(&'a T), C(&'a mut T), D(&'a &'a T), E(Vec<T>), F(u8) }");
    let text = squash(&output_text(&out));
    assert!(!text.contains(&squash("TryFrom<G<'a, T>> for T where")));
    assert!(!text.contains(&squash("TryFrom<G<'a, T>> for T {")));
    assert!(!text.contains(&squash("TryFrom<G<'a, T>> for &'a T {")));
    assert!(!text.contains(&squash("TryFrom<G<'a, T>> for &'a mut T {")));
    assert!(text.contains(&squash("TryFrom<G<'a, T>> for &'a &'a T {")));
    assert!(text.contains(&squash("TryFrom<G<'a, T>> for Vec::<T> {")));
    assert!(text.contains(&squash("impl<'a, T> core::convert::TryFrom<G<'a, T>> for u8 { type Error = (); fn try_from(val: G<'a, T>) -> Result<Self, Self::Error> { match val { G::F(val) => Ok(val), _ => Err(()) } } }")));
    assert_eq!(text.matches("implFrom<").count(), 0);
    assert_eq!(text.matches("From<").count() - text.matches("TryFrom<").count(), 6);
}

#[test]
fn family_member_with_receiver_is_guarded() {
    let out = expand(NUM);
    assert!(has(
        &out,
        "fn multiply_add_one_i64(&self, multiplier: i64) -> i64 { match self { Self::I64(_summum_self) => { { *_summum_self * multiplier + 1 as i64 } }, _ => panic!(\"`{}::{}` method must be called with corresponding inner type\", \"Num\", \"multiply_add_one_i64\") } }"
    ));
    assert!(has(&out, "fn max_f64() -> Self { { f64::MAX.into() } }"));
}

#[test]
fn variant_name_directive_becomes_a_literal() {
    let out = expand(
        "enum Num { F64(f64), I64(i64) }
        impl Num { fn label(&self) -> &'static str { summum_variant_name!() } }",
    );
    assert!(has(&out, "Self::F64(_summum_self) => { { \"F64\" } }, Self::I64(_summum_self) => { { \"I64\" } }"));
}

#[test]
fn super_names_the_whole_value() {
    let out = expand(
        "enum Num { F64(f64), I64(i64) }
        impl Num { fn name_of(&self) -> &'static str { super.variant_name() } }",
    );
    assert!(has(&out, "Self::F64(_summum_self) => { { self.variant_name() } }"));
}

#[test]
fn restrict_listing_every_variant_cuts_nothing() {
    let out = expand(
        "enum Num { F64(f64), I64(i64) }
        impl Num { fn twice(&self) -> Self { summum_restrict!(F64, I64); (*self + *self).into() } }",
    );
    assert!(!has(&out, "internal error"));
    assert!(has(&out, "Self::F64(_summum_self) => { { (*_summum_self + *_summum_self).into() } }"));
}

#[test]
fn snake_names_join_base_and_variant() {
    let n = summum_types::casing::snake_name("try_as", "SliceOf");
    assert_eq!(n, "try_as_slice_of");
    let out = expand("enum E { SliceOf(u8) }");
    assert!(has(&out, "pub fn is_slice_of(&self) -> bool"));
}

#[test]
fn list_form_names_cases_after_their_types() {
    let out = expand("type R<'a, V> = &'a Vec<V> | u8 | Option<V>;");
    assert!(has(&out, "enum R<'a, V> { AVecV(&'a Vec<V>), U8(u8), OptionV(Option::<V>) }"));
}

#[test]
fn generic_arguments_get_the_path_separator() {
    let out = expand("enum P { A(Vec<u8>), B(std::vec::Vec<u16>), C(&'static str) }");
    assert!(has(&out, "A(Vec::<u8>)"));
    assert!(has(&out, "B(std::vec::Vec<u16>)"));
    assert!(has(&out, "C(&'static str)"));
}

#[test]
fn later_definition_of_a_name_replaces_the_earlier() {
    let out = expand("enum A { X(u8) } enum A { Y(u16) } impl A { fn f(&self) {} }");
    let text = squash(&output_text(&out));
    assert_eq!(text.matches("enumA{").count(), 1);
    assert!(text.contains("enumA{Y(u16)}"));
    assert!(text.contains(&squash("Self::Y(_summum_self) => { { } }")));
}

#[test]
fn template_block_may_come_before_its_definition() {
    let out = expand("impl Late { fn f(&self) -> u8 { 1 } } enum Late { A(u8) }");
    assert!(diagnostics(&out).is_empty());
    assert!(has(&out, "impl Late { fn f(&self) -> u8 { match self { Self::A(_summum_self) => { { 1 } } } } }"));
}

#[test]
fn unknown_type_in_template_block_is_a_local_diagnostic() {
    let out = expand("enum Known { A(u8) } impl Missing { fn f(&self) {} }");
    assert_eq!(diagnostics(&out), vec!["can't find definition for type in summum block".to_string()]);
    assert!(has(&out, "enum Known { A(u8) }"));
}

#[test]
fn directive_without_bang_is_a_diagnostic() {
    let out = expand("enum N { A(u8) } impl N { fn f(&self) { summum_restrict(A); } }");
    assert_eq!(diagnostics(&out), vec!["expecting !".to_string()]);
}

#[test]
fn directive_without_argument_group_is_a_diagnostic() {
    let out = expand("enum N { A(u8) } impl N { fn f(&self) { summum_exclude! A; } }");
    assert_eq!(diagnostics(&out), vec!["Expecting tuple for macro args".to_string()]);
}

#[test]
fn directive_with_non_name_arguments_is_a_diagnostic() {
    let out = expand("enum N { A(u8) } impl N { fn f(&self) { summum_restrict!(1 + 2); } }");
    assert_eq!(diagnostics(&out), vec!["expecting a list of variant names".to_string()]);
}

fn syntax_error(src: &str) -> String {
    match summum(&lex(src)) {
        Ok(_) => panic!("expected a syntax error"),
        Err(e) => e.message,
    }
}

#[test]
fn unknown_form_is_a_syntax_error() {
    assert_eq!(syntax_error("union U { a: u8 }"), "expected `enum`, `struct`, `type`, or `impl`");
}

#[test]
fn list_form_without_semicolon_is_a_syntax_error() {
    assert_eq!(syntax_error("type T = u8 | u16"), "expected `;`");
}

#[test]
fn runtime_generics_with_where_clause_are_refused() {
    assert_eq!(
        syntax_error("struct S<V> variants<T> where T: Clone { A(T=V) } { x: T }"),
        "where clause illegal for runtime generics"
    );
}

#[test]
fn duplicate_variant_names_are_refused() {
    assert_eq!(syntax_error("enum D { A(u8), A(u16) }"), "duplicate variant name");
    assert_eq!(syntax_error("type D = u8 as A | u16 as A;"), "duplicate variant name");
}

#[test]
fn incomplete_binding_table_is_refused() {
    assert_eq!(
        syntax_error("struct S<V> variants<T, U> { A(T=V, U=u8), B(T=V) } { x: T, y: U }"),
        "a binding table gives no type for a runtime placeholder"
    );
}

#[test]
fn trait_impl_in_block_is_refused() {
    assert_eq!(
        syntax_error("enum N { A(u8) } impl Clone for N { fn clone(&self) -> Self { *self } }"),
        "impl for traits doesn't belong in summum block"
    );
}

#[test]
fn case_with_two_payloads_is_refused() {
    assert_eq!(syntax_error("enum N { A(u8, u16) }"), "each case holds one payload type in parentheses");
}

#[test]
fn expr_map_starts_empty_of_either_kind() {
    let nested: summum_types::expr_map::ExprMap<u8> = summum_types::expr_map::ExprMap::new(true);
    assert!(nested.is_nested());
    assert!(!nested.has_apps());
    let flat: summum_types::expr_map::ExprMap<u8> = summum_types::expr_map::ExprMap::new(false);
    assert!(!flat.is_nested());
    assert!(!flat.has_apps());
}

#[test]
fn token_text_spaces_all_but_joined_punctuation() {
    let toks = vec![
        Tok::Ident("a".to_string()),
        Tok::Punct(':', true),
        Tok::Punct(':', false),
        Tok::Ident("b".to_string()),
        Tok::Group(Delim::Paren, vec![Tok::Lit("1".to_string())]),
    ];
    assert_eq!(tokens_text(&toks), "a :: b (1)");
}

#[test]
fn registry_finds_the_last_definition_of_a_name() {
    let items = match parse_items(&lex("enum A { X(u8) } enum B { Z(u8) } enum A { Y(u16) }")) {
        Ok(items) => items,
        Err(e) => panic!("syntax error: {}", e.message),
    };
    let mut reg = Registry::new();
    for d in items.types {
        reg.register(d);
    }
    let a = reg.lookup(&"A".to_string()).expect("A is registered");
    assert_eq!(a.variants.len(), 1);
    assert_eq!(a.variants[0].name, "Y");
    assert!(reg.lookup(&"B".to_string()).is_some());
    assert!(reg.lookup(&"C".to_string()).is_none());
}

#[test]
fn syntax_error_locates_the_failing_item() {
    let toks = lex("enum Ok1 { A(u8) } union Bad { a: u8 }");
    match summum(&toks) {
        Ok(_) => panic!("expected a syntax error"),
        Err(e) => {
            assert_eq!(e.at, 3);
            assert!(matches!(&toks[e.at], Tok::Ident(s) if s == "union"));
        }
    }
}

#[test]
fn family_signature_renames_suffixed_identifiers() {
    let out = expand(
        "enum Num { F64(f64), I64(i64) }
        impl Num { fn pick_inner_var(&self, other: Num) -> Option<InnerT> { other.try_into_inner_var().ok() } }",
    );
    assert!(has(&out, "fn pick_f64(&self, other: Num) -> Option<f64>"));
    assert!(has(&out, "{ { other.try_into_f64().ok() } }"));
}

#[test]
fn restrict_after_code_and_without_semicolon() {
    let out = expand(
        "enum Num { F64(f64), I64(i64) }
        impl Num { fn f(&self) -> i64 { let x = 1; summum_restrict!(I64) x } }",
    );
    assert!(has(&out, "Self::I64(_summum_self) => { { let x = 1; x } }"));
    assert!(has(
        &out,
        "Self::F64(_summum_self) => { { { let x = 1; panic!(\"internal error: encountered summum_restrict on F64 branch\"); } } }"
    ));
}

fn error_at(src: &str) -> (String, String) {
    let toks = lex(src);
    match summum(&toks) {
        Ok(_) => panic!("expected a syntax error"),
        Err(e) => {
            let one = vec![lex(src).into_iter().nth(e.at).expect("the error lies inside the unit")];
            let t = tokens_text(&one);
            (e.message, t)
        }
    }
}

#[test]
fn unknown_form_is_located_after_attributes_and_visibility() {
    let (m, t) = error_at("enum Ok1 { A(u8) } #[derive(Debug)] pub union Bad { a: u8 }");
    assert_eq!(m, "expected `enum`, `struct`, `type`, or `impl`");
    assert_eq!(t, "union");
}

#[test]
fn trait_impl_is_located_at_its_for() {
    let (m, t) = error_at("enum N { A(u8) } impl Clone for N { fn clone(&self) -> Self { *self } }");
    assert_eq!(m, "impl for traits doesn't belong in summum block");
    assert_eq!(t, "for");
}

#[test]
fn runtime_where_clause_is_located_at_where() {
    let (m, t) = error_at("struct S<V> variants<T> where T: Clone { A(T=V) } { x: T }");
    assert_eq!(m, "where clause illegal for runtime generics");
    assert_eq!(t, "where");
}

#[test]
fn error_inside_braces_is_located_at_the_group() {
    let (m, t) = error_at("enum N { A(u8, u16) }");
    assert_eq!(m, "each case holds one payload type in parentheses");
    assert!(t.starts_with('{'));
}

#[test]
fn higher_ranked_bounds_are_no_trait_impl() {
    let out = expand(
        "enum N { A(u8) }
        impl N where u8: for<'a> PartialEq<&'a u8> { fn f(&self) -> u8 { 1 } }",
    );
    assert!(diagnostics(&out).is_empty());
    assert!(has(&out, "fn f(&self) -> u8 { match self { Self::A(_summum_self) => { { 1 } } } }"));
}
