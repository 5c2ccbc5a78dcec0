//! Register identity markers.
//!
//! A marker type associates bit fields with the register they were
//! declared for, so that a field literal from one register type can never
//! be applied to a different register's access window.

use vstd::prelude::*;

verus! {

/// A marker type that is used to associate bit fields with registers.
pub trait RegisterMarker {

}

/// The unit type works for registers which don't actually have bit
/// fields defined for them.
impl RegisterMarker for () {

}

} // verus!
