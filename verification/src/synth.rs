//! The synthesizer: a deterministic mapping from the validated model to
//! the primitive data the runtime access layer requires.
//!
//! Per field it emits the in-place mask `((1 << width) - 1) << start`,
//! the shift `start` (zero for a zero-width field, whose mask selects
//! nothing), the permission carried through unchanged, and the index of
//! the owning register as an identity tag; per register the declared
//! width in bits and the address offset; per block the alignment the
//! base-address realization rule owes to the first declared register's
//! storage size. Synthesis never fails on validated input, so it
//! performs no further validation.

use vstd::prelude::*;

use crate::ast::Permission;
use crate::resolve::{ResolvedBlock, ResolvedField, ResolvedRegister};
use crate::validate::{block_valid, field_fits, ranges_disjoint, register_valid};

verus! {

/// The access data of one synthesized field.
#[derive(Clone, Debug, PartialEq, Eq)]
pub struct FieldArtifact {
    pub name: Vec<u8>,
    /// The field's mask, already shifted into place.
    pub mask: u64,
    /// The bit position of the field: what a register value is shifted
    /// by to read the field out. Zero for a zero-width field, and always
    /// inside the storage width.
    pub shift: u64,
    pub permission: Permission,
    /// The index of the owning register inside the block: an identity tag
    /// that prevents a field from being applied to a different register's
    /// access window.
    pub register: usize,
}

/// The access data of one synthesized register.
#[derive(Clone, Debug, PartialEq, Eq)]
pub struct RegisterArtifact {
    pub name: Vec<u8>,
    /// The declared width of the backing integer type, in bits.
    pub bits: u64,
    /// The address offset of the register relative to the block base.
    pub offset: u64,
    pub fields: Vec<FieldArtifact>,
}

/// The synthesized artifact of one register block.
#[derive(Clone, Debug, PartialEq, Eq)]
pub struct BlockArtifact {
    pub name: Vec<u8>,
    /// The alignment a realized base address owes: the storage size in
    /// bytes of the first declared register's integer type (1 when the
    /// block declares no register).
    pub align: u64,
    pub registers: Vec<RegisterArtifact>,
}

/// The unshifted width mask of a field: `width` low bits set.
pub open spec fn spec_mask(width: u64) -> u64 {
    if width >= 64 {
        u64::MAX
    } else {
        (((1u64 as u64) << width) - 1) as u64
    }
}

/// The in-place mask of a field: the width mask shifted to the field's
/// starting bit. A zero-width field masks nothing.
pub open spec fn spec_field_mask(start: u64, width: u64) -> u64 {
    if width == 0 {
        0
    } else {
        spec_mask(width) << start
    }
}

/// The shift of a field: its starting bit. A zero-width field masks
/// nothing, so it shifts by nothing; this keeps every emitted shift
/// inside the storage width, as the access layer requires.
pub open spec fn spec_field_shift(start: u64, width: u64) -> u64 {
    if width == 0 {
        0
    } else {
        start
    }
}

/// Whether `fa` is the synthesis of the resolved field `rf` owned by
/// register number `at`.
pub open spec fn field_synth(rf: ResolvedField, at: int, fa: FieldArtifact) -> bool {
    &&& fa.name@ == rf.name@
    &&& fa.mask == spec_field_mask(rf.range.start, rf.range.width)
    &&& fa.shift == spec_field_shift(rf.range.start, rf.range.width)
    &&& fa.permission == rf.permission
    &&& fa.register == at
}

/// Whether `ra` is the synthesis of the resolved register `rr` at index
/// `at` of the block.
pub open spec fn register_synth(rr: ResolvedRegister, at: int, ra: RegisterArtifact) -> bool {
    &&& ra.name@ == rr.name@
    &&& ra.bits == rr.ty.spec_bits()
    &&& ra.offset == rr.addr
    &&& ra.fields.len() == rr.fields.len()
    &&& forall|j: int|
        0 <= j < rr.fields.len() ==> field_synth(rr.fields[j], at, #[trigger] ra.fields[j])
}

/// Whether `a` is the synthesis of the validated block `b`.
pub open spec fn block_synth(b: ResolvedBlock, a: BlockArtifact) -> bool {
    &&& a.name@ == b.name@
    &&& a.registers.len() == b.registers.len()
    &&& forall|i: int|
        0 <= i < b.registers.len() ==> register_synth(b.registers[i], i, #[trigger] a.registers[i])
    &&& a.align == (if b.registers.len() > 0 {
        b.registers[0].ty.spec_bytes()
    } else {
        1u64
    })
}

impl BlockArtifact {
    /// Well-formedness: the alignment is one of the storage sizes the
    /// closed set of backing types admits.
    pub open spec fn wf(self) -> bool {
        self.align == 1 || self.align == 2 || self.align == 4 || self.align == 8
    }
}

/// Synthesizes one resolved field of register `at`.
fn synth_field(rf: ResolvedField, at: usize, Ghost(bits): Ghost<u64>) -> (fa: FieldArtifact)
    requires
        field_fits(rf, bits),
        bits <= 64,
    ensures
        field_synth(rf, at as int, fa),
{
    let start = rf.range.start;
    let width = rf.range.width;
    let shift: u64 = if width == 0 {
        0
    } else {
        start
    };
    let mask: u64 = if width == 0 {
        0
    } else {
        let m: u64 = if width >= 64 {
            u64::MAX
        } else {
            proof {
                assert(width < 64 ==> (1u64 << width) >= 1) by (bit_vector);
            }
            (1u64 << width) - 1
        };
        m << start
    };
    FieldArtifact { name: rf.name, mask, shift, permission: rf.permission, register: at }
}

/// Synthesizes one resolved register at index `at` of the block.
#[verifier::loop_isolation(false)]
fn synth_register(rr: ResolvedRegister, at: usize) -> (ra: RegisterArtifact)
    requires
        register_valid(rr),
    ensures
        register_synth(rr, at as int, ra),
{
    let ghost rr0 = rr;
    let bits = rr.ty.bits();
    assert(bits <= 64);
    let ResolvedRegister { name, ty: _, addr, fields } = rr;
    let mut rest = fields;
    let mut out: Vec<FieldArtifact> = Vec::new();
    while rest.len() > 0
        invariant
            out.len() + rest.len() == rr0.fields.len(),
            rest@ =~= rr0.fields@.skip(out.len() as int),
            forall|k: int|
                0 <= k < out.len() ==> field_synth(rr0.fields[k], at as int, #[trigger] out[k]),
        decreases rest.len(),
    {
        let ghost done = out.len() as int;
        let rf = rest.remove(0);
        assert(rf == rr0.fields[done]);
        assert(field_fits(rr0.fields[done], rr0.ty.spec_bits()));
        let fa = synth_field(rf, at, Ghost(bits));
        out.push(fa);
        assert(rest@ =~= rr0.fields@.skip(out.len() as int));
    }
    RegisterArtifact { name, bits, offset: addr, fields: out }
}

/// Synthesizes the validated model into the artifact the runtime access
/// layer consumes. Synthesis never fails on validated input; any
/// inconsistency here would be a defect of the validator, not a
/// user-facing error.
#[verifier::loop_isolation(false)]
pub fn synthesize(b: ResolvedBlock) -> (a: BlockArtifact)
    requires
        block_valid(b),
    ensures
        block_synth(b, a),
        a.wf(),
{
    let ghost b0 = b;
    let align: u64 = if b.registers.len() > 0 {
        b.registers[0].ty.bytes()
    } else {
        1
    };
    let ResolvedBlock { name, registers } = b;
    let mut rest = registers;
    let mut out: Vec<RegisterArtifact> = Vec::new();
    while rest.len() > 0
        invariant
            out.len() + rest.len() == b0.registers.len(),
            rest@ =~= b0.registers@.skip(out.len() as int),
            forall|k: int|
                0 <= k < out.len() ==> register_synth(b0.registers[k], k, #[trigger] out[k]),
        decreases rest.len(),
    {
        let ghost done = out.len() as int;
        let at = out.len();
        let rr = rest.remove(0);
        assert(rr == b0.registers[done]);
        assert(register_valid(b0.registers[done]));
        let ra = synth_register(rr, at);
        out.push(ra);
        assert(rest@ =~= b0.registers@.skip(out.len() as int));
    }
    BlockArtifact { name, align, registers: out }
}

impl BlockArtifact {
    /// The base-address realization rule of the block: binds a provided
    /// base address to each register's absolute address `base + offset`.
    ///
    /// A base is accepted exactly when it is non-zero, aligned to the
    /// storage size of the first declared register's integer type, and
    /// every absolute address fits the address type; the addresses come
    /// back in declaration order. A rejected base is a configuration
    /// defect: the caller at the hardware boundary treats it as fatal.
    #[verifier::loop_isolation(false)]
    pub fn realize(&self, base: u64) -> (r: Option<Vec<u64>>)
        requires
            self.wf(),
        ensures
            r is Some <==> base != 0 && base % self.align == 0 && forall|i: int|
                0 <= i < self.registers.len() ==> (#[trigger] self.registers[i].offset) + base
                    <= u64::MAX,
            r matches Some(v) ==> v.len() == self.registers.len() && forall|i: int|
                0 <= i < v.len() ==> v[i] == base + (#[trigger] self.registers[i].offset),
    {
        if base == 0 || !is_aligned(base, self.align) {
            return None;
        }
        let mut out: Vec<u64> = Vec::new();
        let mut i: usize = 0;
        while i < self.registers.len()
            invariant
                0 <= i <= self.registers.len(),
                out.len() == i,
                forall|k: int| 0 <= k < i ==> (#[trigger] self.registers[k].offset) + base <= u64::MAX,
                forall|k: int| 0 <= k < i ==> out[k] == base + (#[trigger] self.registers[k].offset),
            decreases self.registers.len() - i,
        {
            let offset = self.registers[i].offset;
            if offset > u64::MAX - base {
                return None;
            }
            out.push(base + offset);
            i += 1;
        }
        Some(out)
    }
}

/// Whether `value` is a multiple of `align`, for the power-of-two
/// alignments of the closed set of backing types.
pub fn is_aligned(value: u64, align: u64) -> (r: bool)
    requires
        align == 1 || align == 2 || align == 4 || align == 8,
    ensures
        r == (value % align == 0),
{
    proof {
        let v = value;
        if align == 1 {
            assert(((v & 0u64) == 0) == (v % 1u64 == 0)) by (bit_vector);
        } else if align == 2 {
            assert(((v & 1u64) == 0) == (v % 2u64 == 0)) by (bit_vector);
        } else if align == 4 {
            assert(((v & 3u64) == 0) == (v % 4u64 == 0)) by (bit_vector);
        } else {
            assert(((v & 7u64) == 0) == (v % 8u64 == 0)) by (bit_vector);
        }
    }
    value & (align - 1) == 0
}

/// A synthesized mask selects exactly the bits of the field's resolved
/// range: bit `b` of `spec_field_mask(start, width)` is set exactly when
/// `start <= b < start + width`.
pub proof fn lemma_field_mask_bits(start: u64, width: u64, b: u64)
    requires
        start + width <= 64,
        b < 64,
    ensures
        (spec_field_mask(start, width) >> b) & 1 == (if start <= b < start + width {
            1u64
        } else {
            0u64
        }),
{
    assert(start + width <= 64 && b < 64 ==> (spec_field_mask(start, width) >> b) & 1 == (
    if start <= b < start + width {
        1u64
    } else {
        0u64
    })) by (bit_vector);
}

/// Every synthesized shift of a validated register lies inside the
/// 64-bit storage carrier, so it is a shift the access layer's
/// [`crate::field::Field::new`] accepts.
pub proof fn lemma_synth_shift_bounded(rr: ResolvedRegister, at: int, ra: RegisterArtifact, i: int)
    requires
        register_valid(rr),
        register_synth(rr, at, ra),
        0 <= i < rr.fields.len(),
    ensures
        ra.fields[i].shift < 64,
{
    assert(field_fits(rr.fields[i], rr.ty.spec_bits()));
    assert(rr.ty.spec_bits() <= 64);
}

/// One register's synthesized fields never overlap: for two distinct
/// fields of a validated register, the synthesized in-place masks are
/// disjoint.
pub proof fn lemma_synth_masks_disjoint(rr: ResolvedRegister, at: int, ra: RegisterArtifact, i: int, j: int)
    requires
        register_valid(rr),
        register_synth(rr, at, ra),
        0 <= i < rr.fields.len(),
        0 <= j < rr.fields.len(),
        i != j,
    ensures
        ra.fields[i].mask & ra.fields[j].mask == 0,
{
    let fi = rr.fields[i];
    let fj = rr.fields[j];
    assert(field_fits(fi, rr.ty.spec_bits()));
    assert(field_fits(fj, rr.ty.spec_bits()));
    assert(rr.ty.spec_bits() <= 64);
    if i < j {
        assert(ranges_disjoint(fi.range, fj.range));
    } else {
        assert(ranges_disjoint(fj.range, fi.range));
    }
    let s1 = fi.range.start;
    let w1 = fi.range.width;
    let s2 = fj.range.start;
    let w2 = fj.range.width;
    assert(s1 + w1 <= s2 || s2 + w2 <= s1);
    assert((s1 + w1 <= 64 && s2 + w2 <= 64 && (s1 + w1 <= s2 || s2 + w2 <= s1))
        ==> spec_field_mask(s1, w1) & spec_field_mask(s2, w2) == 0) by (bit_vector);
}

} // verus!
