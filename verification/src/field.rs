//! Bit-field arithmetic of the register access layer.
//!
//! [`Field`]s store *how* a field is encoded — its mask and shift — and
//! statically provide only the APIs that are safe for access based on
//! individual permissions. [`FieldValue`]s store a concrete value along
//! with the information on how to correctly encode it into the register.
//!
//! Register storage is carried as `u64`, the widest supported backing
//! type; narrower registers use the low bits.

use core::marker::PhantomData;

use vstd::prelude::*;

use crate::perms::{Permission, Writable};
use crate::register::RegisterMarker;

verus! {

/// Relies on core::marker::PhantomData's `Clone`: the type is zero-sized
/// and has exactly one value, which `clone` returns. Needed for the
/// derived `Clone` of the marker-carrying types below.
pub assume_specification<T>[ <PhantomData<T> as Clone>::clone ](p: &PhantomData<T>) -> (r:
    PhantomData<T>) where T: core::marker::PointeeSized
    ensures
        r == *p,
;

/// Pinpoints a specific bit field inside a register.
///
/// A field stores the position and width of a particular set of bits to
/// extract them from a register value: `mask` is the width mask of the
/// field, shifted into place by `shift` at every use. `P` denotes the
/// access permission the field is gated behind, `R` the register the
/// field was declared for.
#[derive(Clone, Copy, Debug)]
pub struct Field<P, R> {
    mask: u64,
    shift: u64,
    __perm: PhantomData<P>,
    __reg: PhantomData<R>,
}

/// A concrete value to be encoded into a register field.
///
/// Instances of this type should usually be obtained through
/// [`Field::make_value`], which enforces write permission on the field.
/// The stored value never carries bits outside the stored mask.
#[derive(Clone, Copy, Debug)]
pub struct FieldValue<R> {
    mask: u64,
    value: u64,
    __reg: PhantomData<R>,
}

impl<P, R> Field<P, R> {
    /// The width mask of the field, before shifting.
    pub closed spec fn mask_spec(self) -> u64 {
        self.mask
    }

    /// The bit position the mask is shifted to at every use.
    pub closed spec fn shift_spec(self) -> u64 {
        self.shift
    }

    /// Well-formedness: the shift stays inside the storage width, so
    /// shifting the mask into place never overflows the shift amount.
    pub closed spec fn wf(self) -> bool {
        self.shift < 64
    }
}

impl<P: Permission, R: RegisterMarker> Field<P, R> {
    /// Constructs a new field given its encoding details.
    pub fn new(mask: u64, shift: u64) -> (r: Self)
        requires
            shift < 64,
        ensures
            r.mask_spec() == mask,
            r.shift_spec() == shift,
            r.wf(),
    {
        Self { mask, shift, __perm: PhantomData, __reg: PhantomData }
    }

    /// Reads the specified bits of this field out of the given `value`.
    pub fn read(&self, value: u64) -> (r: u64)
        requires
            self.wf(),
        ensures
            r == (value & (self.mask_spec() << self.shift_spec())) >> self.shift_spec(),
    {
        self.select(value) >> self.shift
    }

    /// Selects the bits of this field in the given `value` and zeroes all
    /// other bits.
    ///
    /// If the desired behavior is to read out the bits of this field in a
    /// value, use [`Field::read`] instead.
    pub fn select(&self, value: u64) -> (r: u64)
        requires
            self.wf(),
        ensures
            r == value & (self.mask_spec() << self.shift_spec()),
    {
        value & (self.mask << self.shift)
    }

    /// Checks if the specified bits of this field are set in the given
    /// `value`.
    ///
    /// This returns `true` if *any* of the specified field bits are set,
    /// `false` otherwise.
    pub fn is_set(&self, value: u64) -> (r: bool)
        requires
            self.wf(),
        ensures
            r == ((value & (self.mask_spec() << self.shift_spec())) != 0),
    {
        value & (self.mask << self.shift) != 0
    }

    /// Constructs a [`FieldValue`] from a concrete value, preserving the
    /// encoding information. Only writable fields offer this.
    pub fn make_value(&self, value: u64) -> (r: FieldValue<R>) where P: Writable
        requires
            self.wf(),
        ensures
            r.mask_spec() == self.mask_spec() << self.shift_spec(),
            r.value_spec() == value & (self.mask_spec() << self.shift_spec()),
            r.wf(),
    {
        FieldValue::new(self.mask << self.shift, value)
    }
}

impl<R> FieldValue<R> {
    /// The in-place mask of the described field.
    pub closed spec fn mask_spec(self) -> u64 {
        self.mask
    }

    /// The stored value, already masked into place.
    pub closed spec fn value_spec(self) -> u64 {
        self.value
    }

    /// Well-formedness: the stored value carries no bits outside the
    /// stored mask.
    pub closed spec fn wf(self) -> bool {
        self.value & self.mask == self.value
    }

    /// What applying this field value to prior register content `x`
    /// yields: all bits of the field replaced by the stored value, all
    /// other bits of `x` kept.
    pub open spec fn spec_modify(self, x: u64) -> u64 {
        (x & !self.mask_spec()) | self.value_spec()
    }
}

impl<R: RegisterMarker> FieldValue<R> {
    pub(crate) fn new(mask: u64, value: u64) -> (r: Self)
        ensures
            r.mask_spec() == mask,
            r.value_spec() == value & mask,
            r.wf(),
    {
        proof {
            let v = value;
            let m = mask;
            assert((v & m) & m == v & m) by (bit_vector);
        }
        Self { mask, value: value & mask, __reg: PhantomData }
    }

    /// Consumes the [`FieldValue`], returning the integer value it
    /// stores.
    pub fn into_inner(self) -> (r: u64)
        ensures
            r == self.value_spec(),
    {
        self.value
    }

    /// Encodes the stored value into `new` for the described field and
    /// returns the resulting updated value: `(new & !mask) | value`.
    pub fn modify(self, new: u64) -> (r: u64)
        ensures
            r == self.spec_modify(new),
    {
        (new & !self.mask) | self.value
    }

    /// Combines two field values of one register: the union of their
    /// masks, carrying the union of their values.
    pub fn or(self, rhs: Self) -> (r: Self)
        requires
            self.wf(),
            rhs.wf(),
        ensures
            r.mask_spec() == self.mask_spec() | rhs.mask_spec(),
            r.value_spec() == self.value_spec() | rhs.value_spec(),
            r.wf(),
    {
        proof {
            let m1 = self.mask;
            let v1 = self.value;
            let m2 = rhs.mask;
            let v2 = rhs.value;
            assert(v1 & m1 == v1 && v2 & m2 == v2 ==> (v1 | v2) & (m1 | m2) == (v1 | v2))
                by (bit_vector);
        }
        Self { mask: self.mask | rhs.mask, value: self.value | rhs.value, __reg: PhantomData }
    }
}

/// A field write of value `v` behind mask `m` applied to prior register
/// content `x` yields `(x & !m) | (v & m)`: a [`FieldValue`] made from
/// `v` for a field whose in-place mask is `m` stores exactly `v & m`,
/// and applying it keeps every bit of `x` outside `m`.
pub proof fn lemma_modify_formula<R>(fv: FieldValue<R>, m: u64, v: u64, x: u64)
    requires
        fv.mask_spec() == m,
        fv.value_spec() == v & m,
    ensures
        fv.spec_modify(x) == (x & !m) | (v & m),
{
}

/// Applying the same field write twice in succession yields the same
/// result as applying it once.
pub proof fn lemma_modify_idempotent<R>(fv: FieldValue<R>, x: u64)
    ensures
        fv.spec_modify(fv.spec_modify(x)) == fv.spec_modify(x),
{
    let m = fv.mask_spec();
    let v = fv.value_spec();
    assert((((x & !m) | v) & !m) | v == (x & !m) | v) by (bit_vector);
}

} // verus!
