//! The seal on the traits that only this crate may implement.

use vstd::prelude::*;

verus! {

/// Implemented only inside this crate. A public trait that requires it can be
/// named outside the crate but not implemented there.
pub trait Sealed {}

} // verus!
