//! Casing conventions for identifiers in generated Python.
use vstd::prelude::*;

verus! {

/// What heck's camel-case conversion makes of a text.
pub uninterp spec fn camel_case_of(s: Seq<char>) -> Seq<char>;

/// What heck's snake-case conversion makes of a text.
pub uninterp spec fn snake_case_of(s: Seq<char>) -> Seq<char>;

/// What heck's shouty-snake-case conversion makes of a text.
pub uninterp spec fn shouty_snake_case_of(s: Seq<char>) -> Seq<char>;

/// Relies on heck::CamelCase::to_camel_case for `str`: its result depends on
/// the characters alone.
#[verifier::external_body]
fn to_camel_case(s: &str) -> (r: String)
    ensures
        r@ == camel_case_of(s@),
{
    heck::CamelCase::to_camel_case(s)
}

/// Relies on heck::SnakeCase::to_snake_case for `str`: its result depends on
/// the characters alone.
#[verifier::external_body]
fn to_snake_case(s: &str) -> (r: String)
    ensures
        r@ == snake_case_of(s@),
{
    heck::SnakeCase::to_snake_case(s)
}

/// Relies on heck::ShoutySnakeCase::to_shouty_snake_case for `str`: its result
/// depends on the characters alone.
#[verifier::external_body]
fn to_shouty_snake_case(s: &str) -> (r: String)
    ensures
        r@ == shouty_snake_case_of(s@),
{
    heck::ShoutySnakeCase::to_shouty_snake_case(s)
}

/// Class-name casing, for records, enums, objects and helper routines.
pub fn class_name_py(nm: &str) -> (r: String)
    ensures
        r@ == camel_case_of(nm@),
{
    to_camel_case(nm)
}

/// Function-name casing.
pub fn fn_name_py(nm: &str) -> (r: String)
    ensures
        r@ == snake_case_of(nm@),
{
    to_snake_case(nm)
}

/// Variable-name casing.
pub fn var_name_py(nm: &str) -> (r: String)
    ensures
        r@ == snake_case_of(nm@),
{
    to_snake_case(nm)
}

/// Constant-name casing, for enum case labels.
pub fn enum_name_py(nm: &str) -> (r: String)
    ensures
        r@ == shouty_snake_case_of(nm@),
{
    to_shouty_snake_case(nm)
}

} // verus!
