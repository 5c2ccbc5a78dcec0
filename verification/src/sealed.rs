//! The crate-private sealing trait.
//!
//! Supertrait of the closed permission hierarchy: no type outside this
//! crate can implement [`Sealed`], so the set of permission markers is
//! fixed at description time.

use vstd::prelude::*;

verus! {

/// Sealing marker; implemented only by this crate's permission markers.
pub trait Sealed {

}

} // verus!
