//! The layout validator: turns a range-resolved model into a semantically
//! sound one.
//!
//! For each register it verifies that every field lies within the declared
//! width, that no two fields' bit ranges intersect, that field names are
//! pairwise distinct, and that discriminant names inside one field's
//! options are pairwise distinct; for the block it verifies that register
//! names are pairwise distinct. Validation is fail-fast: the first fault
//! aborts the compilation unit.

use vstd::prelude::*;

use crate::ast::{bytes_eq, ResolvedRange};
use crate::error::{LayoutError, LayoutErrorKind};
use crate::resolve::{ResolvedBlock, ResolvedField, ResolvedRegister};

verus! {

/// Whether the field's resolved range lies entirely within a register of
/// `bits` bits.
pub open spec fn field_fits(f: ResolvedField, bits: u64) -> bool {
    f.range.start + f.range.width <= bits
}

/// Whether two resolved ranges occupy no common bit: one ends at or
/// before the other starts.
pub open spec fn ranges_disjoint(a: ResolvedRange, b: ResolvedRange) -> bool {
    a.start + a.width <= b.start || b.start + b.width <= a.start
}

/// Whether every field of the register lies within its declared width.
pub open spec fn register_fields_fit(r: ResolvedRegister) -> bool {
    forall|i: int|
        0 <= i < r.fields.len() ==> field_fits(#[trigger] r.fields[i], r.ty.spec_bits())
}

/// Whether no two fields of the register overlap in bit position.
pub open spec fn register_fields_disjoint(r: ResolvedRegister) -> bool {
    forall|i: int, j: int|
        0 <= i < j < r.fields.len() ==> ranges_disjoint(
            (#[trigger] r.fields[i]).range,
            (#[trigger] r.fields[j]).range,
        )
}

/// Whether the register's field names are pairwise distinct.
pub open spec fn field_names_distinct(r: ResolvedRegister) -> bool {
    forall|i: int, j: int|
        0 <= i < j < r.fields.len() ==> (#[trigger] r.fields[i]).name@ != (
        #[trigger] r.fields[j]).name@
}

/// Whether the discriminant names of one field's options are pairwise
/// distinct. A field without options is trivially fine.
pub open spec fn options_distinct(f: ResolvedField) -> bool {
    match f.options {
        None => true,
        Some(o) => forall|i: int, j: int|
            0 <= i < j < o.discriminants.len() ==> (#[trigger] o.discriminants[i]).name@ != (
            #[trigger] o.discriminants[j]).name@,
    }
}

/// Whether every field of the register has distinct discriminant names in
/// its options.
pub open spec fn register_options_distinct(r: ResolvedRegister) -> bool {
    forall|i: int| 0 <= i < r.fields.len() ==> options_distinct(#[trigger] r.fields[i])
}

/// Structural soundness of one register.
pub open spec fn register_valid(r: ResolvedRegister) -> bool {
    &&& register_fields_fit(r)
    &&& register_fields_disjoint(r)
    &&& field_names_distinct(r)
    &&& register_options_distinct(r)
}

/// Whether the block's register names are pairwise distinct.
pub open spec fn register_names_distinct(b: ResolvedBlock) -> bool {
    forall|i: int, j: int|
        0 <= i < j < b.registers.len() ==> (#[trigger] b.registers[i]).name@ != (
        #[trigger] b.registers[j]).name@
}

/// Structural soundness of the whole block: every register is sound and
/// register names are pairwise distinct.
pub open spec fn block_valid(b: ResolvedBlock) -> bool {
    &&& forall|i: int| 0 <= i < b.registers.len() ==> register_valid(#[trigger] b.registers[i])
    &&& register_names_distinct(b)
}

/// Checks that every field range lies within the declared register width.
#[verifier::loop_isolation(false)]
fn check_fields_fit(r: &ResolvedRegister, at: usize) -> (res: Result<(), LayoutError>)
    ensures
        res is Ok <==> register_fields_fit(*r),
        res matches Err(e) ==> e.kind == LayoutErrorKind::FieldOutOfRange && e.register == at
            && e.field < r.fields.len() && !field_fits(r.fields[e.field as int], r.ty.spec_bits()),
{
    let bits = r.ty.bits();
    let mut i: usize = 0;
    while i < r.fields.len()
        invariant
            0 <= i <= r.fields.len(),
            forall|k: int| 0 <= k < i ==> field_fits(#[trigger] r.fields[k], r.ty.spec_bits()),
        decreases r.fields.len() - i,
    {
        let start = r.fields[i].range.start;
        let width = r.fields[i].range.width;
        if width > bits || start > bits - width {
            assert(!field_fits(r.fields[i as int], r.ty.spec_bits()));
            return Err(
                LayoutError { register: at, field: i, kind: LayoutErrorKind::FieldOutOfRange },
            );
        }
        i += 1;
    }
    Ok(())
}

/// Checks that no two field ranges of the register intersect.
///
/// Requires every field to fit the declared width, so that range ends
/// stay within the machine integer.
#[verifier::loop_isolation(false)]
fn check_fields_disjoint(r: &ResolvedRegister, at: usize) -> (res: Result<(), LayoutError>)
    requires
        register_fields_fit(*r),
    ensures
        res is Ok <==> register_fields_disjoint(*r),
        res matches Err(e) ==> e.kind == LayoutErrorKind::OverlappingFields && e.register == at
            && e.field < r.fields.len() && exists|p: int|
            0 <= p < e.field && !ranges_disjoint(
                (#[trigger] r.fields[p]).range,
                r.fields[e.field as int].range,
            ),
{
    let mut i: usize = 0;
    while i < r.fields.len()
        invariant
            0 <= i <= r.fields.len(),
            forall|p: int, q: int|
                0 <= p < q < r.fields.len() && p < i ==> ranges_disjoint(
                    (#[trigger] r.fields[p]).range,
                    (#[trigger] r.fields[q]).range,
                ),
        decreases r.fields.len() - i,
    {
        let a = r.fields[i].range;
        let mut j: usize = i + 1;
        while j < r.fields.len()
            invariant
                i < j <= r.fields.len(),
                a == r.fields[i as int].range,
                forall|q: int|
                    i < q < j ==> ranges_disjoint(
                        r.fields[i as int].range,
                        (#[trigger] r.fields[q]).range,
                    ),
            decreases r.fields.len() - j,
        {
            let b = r.fields[j].range;
            assert(field_fits(r.fields[i as int], r.ty.spec_bits()));
            assert(field_fits(r.fields[j as int], r.ty.spec_bits()));
            if !(a.start + a.width <= b.start || b.start + b.width <= a.start) {
                assert(!ranges_disjoint(
                    (r.fields[i as int]).range,
                    r.fields[j as int].range,
                ));
                return Err(
                    LayoutError { register: at, field: j, kind: LayoutErrorKind::OverlappingFields },
                );
            }
            j += 1;
        }
        i += 1;
    }
    Ok(())
}

/// Checks that the register's field names are pairwise distinct.
#[verifier::loop_isolation(false)]
fn check_field_names(r: &ResolvedRegister, at: usize) -> (res: Result<(), LayoutError>)
    ensures
        res is Ok <==> field_names_distinct(*r),
        res matches Err(e) ==> e.kind == LayoutErrorKind::DuplicateFieldName && e.register == at
            && e.field < r.fields.len() && exists|p: int|
            0 <= p < e.field && (#[trigger] r.fields[p]).name@ == r.fields[e.field as int].name@,
{
    let mut i: usize = 0;
    while i < r.fields.len()
        invariant
            0 <= i <= r.fields.len(),
            forall|p: int, q: int|
                0 <= p < q < r.fields.len() && p < i ==> (#[trigger] r.fields[p]).name@ != (
                #[trigger] r.fields[q]).name@,
        decreases r.fields.len() - i,
    {
        let mut j: usize = i + 1;
        while j < r.fields.len()
            invariant
                i < j <= r.fields.len(),
                forall|q: int|
                    i < q < j ==> r.fields[i as int].name@ != (#[trigger] r.fields[q]).name@,
            decreases r.fields.len() - j,
        {
            if bytes_eq(&r.fields[i].name, &r.fields[j].name) {
                assert((r.fields[i as int]).name@ == r.fields[j as int].name@);
                return Err(
                    LayoutError { register: at, field: j, kind: LayoutErrorKind::DuplicateFieldName },
                );
            }
            j += 1;
        }
        i += 1;
    }
    Ok(())
}

/// Checks the discriminant names of one field's options for pairwise
/// distinctness.
#[verifier::loop_isolation(false)]
fn check_one_options(f: &ResolvedField, at: usize, field: usize) -> (res: Result<(), LayoutError>)
    ensures
        res is Ok <==> options_distinct(*f),
        res matches Err(e) ==> e.kind == LayoutErrorKind::DuplicateDiscriminant && e.register == at
            && e.field == field,
{
    let o = match &f.options {
        None => {
            return Ok(());
        },
        Some(o) => o,
    };
    let mut i: usize = 0;
    while i < o.discriminants.len()
        invariant
            0 <= i <= o.discriminants.len(),
            f.options == Some(*o),
            forall|p: int, q: int|
                0 <= p < q < o.discriminants.len() && p < i ==> (
                #[trigger] o.discriminants[p]).name@ != (#[trigger] o.discriminants[q]).name@,
        decreases o.discriminants.len() - i,
    {
        let mut j: usize = i + 1;
        while j < o.discriminants.len()
            invariant
                i < j <= o.discriminants.len(),
                forall|q: int|
                    i < q < j ==> o.discriminants[i as int].name@ != (
                    #[trigger] o.discriminants[q]).name@,
            decreases o.discriminants.len() - j,
        {
            if bytes_eq(&o.discriminants[i].name, &o.discriminants[j].name) {
                return Err(
                    LayoutError {
                        register: at,
                        field,
                        kind: LayoutErrorKind::DuplicateDiscriminant,
                    },
                );
            }
            j += 1;
        }
        i += 1;
    }
    Ok(())
}

/// Checks every field's options of the register.
#[verifier::loop_isolation(false)]
fn check_options(r: &ResolvedRegister, at: usize) -> (res: Result<(), LayoutError>)
    ensures
        res is Ok <==> register_options_distinct(*r),
        res matches Err(e) ==> e.kind == LayoutErrorKind::DuplicateDiscriminant && e.register == at
            && e.field < r.fields.len() && !options_distinct(r.fields[e.field as int]),
{
    let mut i: usize = 0;
    while i < r.fields.len()
        invariant
            0 <= i <= r.fields.len(),
            forall|k: int| 0 <= k < i ==> options_distinct(#[trigger] r.fields[k]),
        decreases r.fields.len() - i,
    {
        match check_one_options(&r.fields[i], at, i) {
            Ok(()) => {},
            Err(e) => {
                assert(!options_distinct(r.fields[i as int]));
                return Err(e);
            },
        }
        i += 1;
    }
    Ok(())
}

/// Validates one register: field containment, non-overlap, name
/// uniqueness and discriminant uniqueness, in that order, fail-fast.
fn validate_register(r: &ResolvedRegister, at: usize) -> (res: Result<(), LayoutError>)
    ensures
        res is Ok <==> register_valid(*r),
        res matches Err(e) ==> e.register == at && e.field < r.fields.len() && match e.kind {
            LayoutErrorKind::FieldOutOfRange => !field_fits(
                r.fields[e.field as int],
                r.ty.spec_bits(),
            ),
            LayoutErrorKind::OverlappingFields => exists|p: int|
                0 <= p < e.field && !ranges_disjoint(
                    (#[trigger] r.fields[p]).range,
                    r.fields[e.field as int].range,
                ),
            LayoutErrorKind::DuplicateFieldName => exists|p: int|
                0 <= p < e.field && (#[trigger] r.fields[p]).name@
                    == r.fields[e.field as int].name@,
            LayoutErrorKind::DuplicateDiscriminant => !options_distinct(r.fields[e.field as int]),
            LayoutErrorKind::DuplicateRegisterName => false,
        },
{
    check_fields_fit(r, at)?;
    check_fields_disjoint(r, at)?;
    check_field_names(r, at)?;
    check_options(r, at)?;
    Ok(())
}

/// Checks that the block's register names are pairwise distinct.
#[verifier::loop_isolation(false)]
fn check_register_names(b: &ResolvedBlock) -> (res: Result<(), LayoutError>)
    ensures
        res is Ok <==> register_names_distinct(*b),
        res matches Err(e) ==> e.kind == LayoutErrorKind::DuplicateRegisterName && e.register
            < b.registers.len() && exists|p: int|
            0 <= p < e.register && (#[trigger] b.registers[p]).name@
                == b.registers[e.register as int].name@,
{
    let mut i: usize = 0;
    while i < b.registers.len()
        invariant
            0 <= i <= b.registers.len(),
            forall|p: int, q: int|
                0 <= p < q < b.registers.len() && p < i ==> (#[trigger] b.registers[p]).name@ != (
                #[trigger] b.registers[q]).name@,
        decreases b.registers.len() - i,
    {
        let mut j: usize = i + 1;
        while j < b.registers.len()
            invariant
                i < j <= b.registers.len(),
                forall|q: int|
                    i < q < j ==> b.registers[i as int].name@ != (#[trigger] b.registers[q]).name@,
            decreases b.registers.len() - j,
        {
            if bytes_eq(&b.registers[i].name, &b.registers[j].name) {
                assert((b.registers[i as int]).name@ == b.registers[j as int].name@);
                return Err(
                    LayoutError {
                        register: j,
                        field: 0,
                        kind: LayoutErrorKind::DuplicateRegisterName,
                    },
                );
            }
            j += 1;
        }
        i += 1;
    }
    Ok(())
}

/// Validates the resolved model: every register must be structurally
/// sound and register names pairwise distinct. Succeeds exactly on valid
/// blocks; the first discovered fault aborts the unit, and the error's
/// kind names a violation that really is in the model.
#[verifier::loop_isolation(false)]
pub fn validate_block(b: &ResolvedBlock) -> (res: Result<(), LayoutError>)
    ensures
        res is Ok <==> block_valid(*b),
        res matches Err(e) ==> e.register < b.registers.len() && match e.kind {
            LayoutErrorKind::FieldOutOfRange => e.field
                < b.registers[e.register as int].fields.len() && !field_fits(
                b.registers[e.register as int].fields[e.field as int],
                b.registers[e.register as int].ty.spec_bits(),
            ),
            LayoutErrorKind::OverlappingFields => e.field
                < b.registers[e.register as int].fields.len() && exists|p: int|
                0 <= p < e.field && !ranges_disjoint(
                    (#[trigger] b.registers[e.register as int].fields[p]).range,
                    b.registers[e.register as int].fields[e.field as int].range,
                ),
            LayoutErrorKind::DuplicateFieldName => e.field
                < b.registers[e.register as int].fields.len() && exists|p: int|
                0 <= p < e.field && (#[trigger] b.registers[e.register as int].fields[p]).name@
                    == b.registers[e.register as int].fields[e.field as int].name@,
            LayoutErrorKind::DuplicateDiscriminant => e.field
                < b.registers[e.register as int].fields.len() && !options_distinct(
                b.registers[e.register as int].fields[e.field as int],
            ),
            LayoutErrorKind::DuplicateRegisterName => exists|p: int|
                0 <= p < e.register && (#[trigger] b.registers[p]).name@
                    == b.registers[e.register as int].name@,
        },
{
    let mut i: usize = 0;
    while i < b.registers.len()
        invariant
            0 <= i <= b.registers.len(),
            forall|k: int| 0 <= k < i ==> register_valid(#[trigger] b.registers[k]),
        decreases b.registers.len() - i,
    {
        match validate_register(&b.registers[i], i) {
            Ok(()) => {},
            Err(e) => {
                assert(!register_valid(b.registers[i as int]));
                return Err(e);
            },
        }
        i += 1;
    }
    check_register_names(b)?;
    Ok(())
}

/// Two fields declared with overlapping bit ranges inside one register
/// make the whole block invalid, so [`validate_block`] rejects it: `bit`
/// witnesses a bit position that both fields' resolved ranges contain.
pub proof fn lemma_overlap_rejected(b: ResolvedBlock, r: int, i: int, j: int, bit: int)
    requires
        0 <= r < b.registers.len(),
        0 <= i < j < b.registers[r].fields.len(),
        b.registers[r].fields[i].range.start <= bit < b.registers[r].fields[i].range.start
            + b.registers[r].fields[i].range.width,
        b.registers[r].fields[j].range.start <= bit < b.registers[r].fields[j].range.start
            + b.registers[r].fields[j].range.width,
    ensures
        !block_valid(b),
{
    assert(!ranges_disjoint(b.registers[r].fields[i].range, b.registers[r].fields[j].range));
    if block_valid(b) {
        assert(register_valid(b.registers[r]));
        assert(ranges_disjoint(b.registers[r].fields[i].range, b.registers[r].fields[j].range));
    }
}

} // verus!
