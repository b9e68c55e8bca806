//! Names in the case styles that generated items use.

use vstd::prelude::*;

verus! {

/// The snake_case form of a name, as `inflections::case::to_snake_case`
/// computes it.
pub uninterp spec fn snake_case_of(name: Seq<char>) -> Seq<char>;

/// The PascalCase form of a name, as `inflections::case::to_pascal_case`
/// computes it.
pub uninterp spec fn pascal_case_of(name: Seq<char>) -> Seq<char>;

/// Calls `inflections::case::to_snake_case`. The result depends on the
/// characters of `name` alone; the contract only gives it a name.
#[verifier::external_body]
pub(crate) fn to_snake_case(name: &str) -> (r: String)
    ensures
        r@ == snake_case_of(name@),
{
    inflections::case::to_snake_case(name)
}

/// Calls `inflections::case::to_pascal_case`. The result depends on the
/// characters of `name` alone; the contract only gives it a name.
#[verifier::external_body]
pub(crate) fn to_pascal_case(name: &str) -> (r: String)
    ensures
        r@ == pascal_case_of(name@),
{
    inflections::case::to_pascal_case(name)
}

/// The name of the function that registers the method exposed as `method`:
/// `register_` and the method's snake_case form.
pub fn register_name(method: &str) -> (r: String)
    ensures
        r@ == "register_"@ + snake_case_of(method@),
{
    let mut out = "register_".to_owned();
    let snake = to_snake_case(method);
    out.append(snake.as_str());
    out
}

/// The name of the marker type generated for the function `function`: its
/// PascalCase form.
pub fn marker_name(function: &str) -> (r: String)
    ensures
        r@ == pascal_case_of(function@),
{
    to_pascal_case(function)
}

/// The name that `register_name` gives, from the snake_case form worked
/// out beforehand.
pub fn register_name_from(snake: &str) -> (r: String)
    ensures
        r@ == "register_"@ + snake@,
{
    let mut out = "register_".to_owned();
    out.append(snake);
    out
}

} // verus!
