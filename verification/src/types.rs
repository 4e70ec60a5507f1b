//! Static types assigned by the front end.

use vstd::prelude::*;

verus! {

/// The static type of an expression or of a captured binding.
#[derive(Clone, Copy, Debug, PartialEq, Eq, Structural)]
pub enum Type {
    Boolean,
    Integer,
}

} // verus!
