//! Keeps the set of pin voltage families closed.

use vstd::prelude::*;

verus! {

/// Implemented by the voltage families of this crate and by nothing else.
pub trait Sealed {

}

} // verus!
