//! A cursor-driven completion engine for a module-structured language:
//! given a parse tree and a byte position, it produces the identifiers
//! (items, locals, type parameters, fields, methods, builtins, crates)
//! that are valid at that position, filtered by visibility.

pub mod completion_item;
pub mod ast;
pub mod def_map;
pub mod finder;
pub mod ids;
pub mod kinds;
pub mod position;
pub mod span;
pub mod text;
pub mod types;
pub mod visibility;

use vstd::prelude::*;

verus! {

/// Case-sensitive prefix match used to filter candidate names.
pub fn name_matches(name: &str, prefix: &str) -> (r: bool)
    ensures
        r == prefix@.is_prefix_of(name@),
{
    name_starts_with(name, prefix)
}

/// Relies on str::starts_with: true exactly when the pattern
/// is a prefix of the string slice.
#[verifier::external_body]
fn name_starts_with(name: &str, prefix: &str) -> (r: bool)
    ensures
        r == prefix@.is_prefix_of(name@),
{
    name.starts_with(prefix)
}

} // verus!
