//! The identifier transformer: strips the active service prefix from a
//! declaration name and rewrites the remainder from the SDK's PascalCase
//! convention into the target language's snake_case convention. Only the
//! display name in the wrapper signature is transformed; the original
//! name stays the target of the foreign call.

use vstd::prelude::*;
use crate::text::starts_with;

verus! {

/// What heck's snake-case conversion returns for a given character
/// sequence. The conversion reads only the characters of its input, so
/// its result is a function of them alone; its word-boundary rules are
/// not restated here.
pub uninterp spec fn snake_of(s: Seq<char>) -> Seq<char>;

/// Relies on heck's `ToSnakeCase` impl for `str`: a deterministic,
/// locale-independent conversion of the input characters to snake_case.
#[verifier::external_body]
fn to_snake_case(s: &str) -> (r: String)
    ensures
        r@ == snake_of(s@),
{
    heck::ToSnakeCase::to_snake_case(s)
}

/// The transform as the contracts state it: drop the prefix, snake-case
/// the remainder. With an empty prefix the whole name is converted.
pub open spec fn transformed_ident(name: Seq<char>, prefix: Seq<char>) -> Seq<char> {
    snake_of(name.skip(prefix.len() as int))
}

/// Rewrites one declaration name for the wrapper signature. The name is
/// required to start with the prefix: the filter has already confirmed
/// that for every declaration that reaches the transformer.
pub fn transform_ident(name: &str, prefix: &str) -> (r: String)
    requires
        starts_with(name@, prefix@),
    ensures
        r@ == transformed_ident(name@, prefix@),
{
    let n = name.unicode_len();
    let p = prefix.unicode_len();
    let rest = name.substring_char(p, n);
    proof {
        assert(rest@ =~= name@.skip(p as int));
    }
    to_snake_case(rest)
}

} // verus!
