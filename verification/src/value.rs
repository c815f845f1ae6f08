//! The kinds of typed value that the store's value encoding knows.
use vstd::prelude::*;

verus! {

/// The type of a stored value, as named by the tag in front of its encoding.
#[derive(Clone, Copy, Debug, PartialEq, Eq, Structural)]
pub enum Type {
    Bool,
    U64,
    I64,
    F64,
    Instant,
    Uuid,
    Str,
    Json,
    Blob,
}

} // verus!
