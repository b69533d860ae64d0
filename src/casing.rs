//! Identifier casing, and the text of a token sequence that casing reads.
use vstd::prelude::*;
use vstd::string::StringExecFns;

verus! {

/// The snake-case form of a text, as `heck` writes it.
pub uninterp spec fn snake_of(s: Seq<char>) -> Seq<char>;

/// The upper-camel-case form of a text, as `heck` writes it.
pub uninterp spec fn upper_camel_of(s: Seq<char>) -> Seq<char>;

/// Relies on `heck::AsSnakeCase`: its text depends on the input text alone.
#[verifier::external_body]
fn to_snake(s: &str) -> (r: String)
    ensures
        r@ == snake_of(s@),
{
    heck::AsSnakeCase(s).to_string()
}

/// Relies on `heck::AsUpperCamelCase`: its text depends on the input text alone.
#[verifier::external_body]
pub(crate) fn to_upper_camel(s: &str) -> (r: String)
    ensures
        r@ == upper_camel_of(s@),
{
    heck::AsUpperCamelCase(s).to_string()
}

/// `base`, an underscore, then the snake-case form of `name`.
pub open spec fn snake_name_spec(base: Seq<char>, name: Seq<char>) -> Seq<char> {
    base + seq!['_'] + snake_of(name)
}

/// Joins `base` and the snake-case form of `name` with an underscore (`try_as` and
/// `SliceOf` give `try_as_slice_of`).
pub fn snake_name(base: &str, name: &str) -> (r: String)
    ensures
        r@ == snake_name_spec(base@, name@),
{
    let sn = to_snake(name);
    let mut r = String::from_str(base);
    let u = String::from_str("_");
    proof {
        reveal_strlit("_");
    }
    r.append(u.as_str());
    r.append(sn.as_str());
    r
}

} // verus!
