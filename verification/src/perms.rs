//! Permission states for gating access to register bit fields.
//!
//! [`crate::field::Field`] and [`crate::field::FieldValue`] are made
//! covariant over particular [`Permission`]s, so only the APIs a field is
//! meant to be interfaced with are exposed for it. The hierarchy is
//! sealed: the set of permissions is closed at description time.

use vstd::prelude::*;

use crate::sealed::Sealed;

verus! {

/// Supertrait for all permissions provided by this module.
pub trait Permission: Sealed {

}

/// Marks permissions which grant read access to a field.
pub trait Readable: Permission {

}

/// Marks permissions which grant write access to a field.
pub trait Writable: Permission {

}

/// A union of two permissions `P1` and `P2`: the most permissive level
/// that both sides actually support.
pub trait PermissionUnion<P1: Permission, P2: Permission> {
    /// The resulting permission type.
    type Union: Permission;
}

/// Permission marker to tag read-only register fields.
#[derive(Clone, Copy, Debug)]
pub struct ReadOnly;

impl Sealed for ReadOnly {

}

impl Permission for ReadOnly {

}

impl Readable for ReadOnly {

}

/// Permission marker to tag write-only register fields.
#[derive(Clone, Copy, Debug)]
pub struct WriteOnly;

impl Sealed for WriteOnly {

}

impl Permission for WriteOnly {

}

impl Writable for WriteOnly {

}

/// Permission marker to tag both readable and writable register fields.
#[derive(Clone, Copy, Debug)]
pub struct ReadWrite;

impl Sealed for ReadWrite {

}

impl Permission for ReadWrite {

}

impl Readable for ReadWrite {

}

impl Writable for ReadWrite {

}

/// Read access is reconcilable with any other readable permission at the
/// read-only level.
impl<R: Readable> PermissionUnion<ReadOnly, R> for ReadOnly {
    type Union = ReadOnly;
}

/// Write access is reconcilable with any other writable permission at the
/// write-only level.
impl<W: Writable> PermissionUnion<WriteOnly, W> for WriteOnly {
    type Union = WriteOnly;
}

/// Full access is reconcilable with any permission at that permission's
/// own level.
impl<P: Permission> PermissionUnion<ReadWrite, P> for ReadWrite {
    type Union = P;
}

} // verus!
