//! Tests of the bit-field arithmetic of the access layer.

use regi::field::{Field, FieldValue};
use regi::perms::{ReadOnly, ReadWrite, WriteOnly};

type RwField = Field<ReadWrite, ()>;
type RoField = Field<ReadOnly, ()>;
type WoField = Field<WriteOnly, ()>;

#[test]
fn read_extracts_the_field_bits() {
    // A 4-bit field at bit 4.
    let f = RwField::new(0xF, 4);
    assert_eq!(f.read(0x0000_00A5), 0xA);
    assert_eq!(f.read(0xFFFF_FF0F), 0x0);
    assert_eq!(f.select(0x0000_00A5), 0xA0);
    assert_eq!(f.select(0xFFFF_FF0F), 0x00);
}

#[test]
fn is_set_reports_any_field_bit() {
    let f = RoField::new(0b11, 6);
    assert!(f.is_set(0x40));
    assert!(f.is_set(0x80));
    assert!(f.is_set(0xC0));
    assert!(!f.is_set(0x3F));
    assert!(!f.is_set(0));
}

#[test]
fn modify_applies_the_masked_value() {
    // Applying a field write of value v with mask m to prior register
    // content x yields (x & !m) | (v & m).
    let f = RwField::new(0xF, 4);
    let fv = f.make_value(0xAB);
    // The stored value carries only the field's bits: 0xAB & 0xF0.
    assert_eq!(fv.into_inner(), 0xA0);
    let x: u64 = 0x1234;
    let once = fv.modify(x);
    assert_eq!(once, (x & !0xF0) | (0xAB & 0xF0));
    assert_eq!(once, 0x12A4);
    // Applying the same write twice yields the same result as once.
    assert_eq!(fv.modify(once), once);
}

#[test]
fn write_only_fields_make_values() {
    let f = WoField::new(0b1, 0);
    let fv = f.make_value(1);
    assert_eq!(fv.modify(0xFE), 0xFF);
    assert_eq!(fv.modify(0xFF), 0xFF);
}

#[test]
fn field_values_combine_by_or() {
    let lo = RwField::new(0xF, 0);
    let hi = RwField::new(0xF, 8);
    let combined: FieldValue<()> = lo.make_value(0x5).or(hi.make_value(0x300));
    assert_eq!(combined.into_inner(), 0x305);
    assert_eq!(combined.modify(0xFFFF), 0xF3F5);
}

#[test]
fn fields_are_copied_not_consumed() {
    let f = RwField::new(0b111, 2);
    let a = f;
    let b = f;
    assert_eq!(a.read(0b11100), b.read(0b11100));
    assert_eq!(a.read(0b11100), 0b111);
}
