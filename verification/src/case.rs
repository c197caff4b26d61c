//! Case conversions of identifiers and text: the word-splitting
//! conversions of `heck` and the Unicode ones of `str`. Each result is a
//! function of the input characters alone, named here and not restated.

use heck::{
    ToKebabCase, ToLowerCamelCase, ToPascalCase, ToShoutyKebabCase, ToShoutySnakeCase, ToSnakeCase,
};
use vstd::prelude::*;

verus! {

/// What `heck::ToSnakeCase::to_snake_case` makes of a string.
pub uninterp spec fn snake_cased(s: Seq<char>) -> Seq<char>;

/// What `heck::ToKebabCase::to_kebab_case` makes of a string.
pub uninterp spec fn kebab_cased(s: Seq<char>) -> Seq<char>;

/// What `heck::ToShoutySnakeCase::to_shouty_snake_case` makes of a string.
pub uninterp spec fn shouty_snake_cased(s: Seq<char>) -> Seq<char>;

/// What `heck::ToShoutyKebabCase::to_shouty_kebab_case` makes of a string.
pub uninterp spec fn shouty_kebab_cased(s: Seq<char>) -> Seq<char>;

/// What `heck::ToPascalCase::to_pascal_case` makes of a string.
pub uninterp spec fn pascal_cased(s: Seq<char>) -> Seq<char>;

/// What `heck::ToLowerCamelCase::to_lower_camel_case` makes of a string.
pub uninterp spec fn lower_camel_cased(s: Seq<char>) -> Seq<char>;

/// What `str::to_lowercase` makes of a string (full Unicode lower-casing).
pub uninterp spec fn lowercased(s: Seq<char>) -> Seq<char>;

/// What `str::to_uppercase` makes of a string (full Unicode upper-casing).
pub uninterp spec fn uppercased(s: Seq<char>) -> Seq<char>;

/// `heck`'s snake case: words split at case changes and non-alphanumeric
/// characters, lower-cased, joined by `_`. Claimed: the result is
/// `snake_cased` of the input.
#[verifier::external_body]
pub(crate) fn to_snake_case(s: &str) -> (r: String)
    ensures
        r@ == snake_cased(s@),
{
    s.to_snake_case()
}

/// `heck`'s kebab case (lower-cased words joined by `-`). Claimed: the
/// result is `kebab_cased` of the input.
#[verifier::external_body]
pub(crate) fn to_kebab_case(s: &str) -> (r: String)
    ensures
        r@ == kebab_cased(s@),
{
    s.to_kebab_case()
}

/// `heck`'s shouty snake case (upper-cased words joined by `_`). Claimed:
/// the result is `shouty_snake_cased` of the input.
#[verifier::external_body]
pub(crate) fn to_shouty_snake_case(s: &str) -> (r: String)
    ensures
        r@ == shouty_snake_cased(s@),
{
    s.to_shouty_snake_case()
}

/// `heck`'s shouty kebab case (upper-cased words joined by `-`). Claimed:
/// the result is `shouty_kebab_cased` of the input.
#[verifier::external_body]
pub(crate) fn to_shouty_kebab_case(s: &str) -> (r: String)
    ensures
        r@ == shouty_kebab_cased(s@),
{
    s.to_shouty_kebab_case()
}

/// `heck`'s Pascal case (capitalized words, no separator). Claimed: the
/// result is `pascal_cased` of the input.
#[verifier::external_body]
pub(crate) fn to_pascal_case(s: &str) -> (r: String)
    ensures
        r@ == pascal_cased(s@),
{
    s.to_pascal_case()
}

/// `heck`'s lower camel case (as Pascal case, first word lower-cased).
/// Claimed: the result is `lower_camel_cased` of the input.
#[verifier::external_body]
pub(crate) fn to_lower_camel_case(s: &str) -> (r: String)
    ensures
        r@ == lower_camel_cased(s@),
{
    s.to_lower_camel_case()
}

/// `str::to_lowercase`. Claimed: the result is `lowercased` of the input.
#[verifier::external_body]
pub(crate) fn to_lowercase(s: &str) -> (r: String)
    ensures
        r@ == lowercased(s@),
{
    s.to_lowercase()
}

/// `str::to_uppercase`. Claimed: the result is `uppercased` of the input.
#[verifier::external_body]
pub(crate) fn to_uppercase(s: &str) -> (r: String)
    ensures
        r@ == uppercased(s@),
{
    s.to_uppercase()
}

} // verus!
