//! Resolution of a parsed register block into a concrete layout model.
//!
//! Every field's written range is normalized into a `(start, width)` pair
//! against the declared width of its owning register; everything else is
//! carried through unchanged. Resolution is a pure function of the syntax
//! tree: it performs no validation beyond range well-formedness, which is
//! the layout validator's job.

use vstd::prelude::*;

use crate::ast::{
    BitField, FieldOptions, IntType, Permission, RegisterBlock, RegisterLayout, ResolvedRange,
};
use crate::error::{SemanticError, SemanticErrorKind};

verus! {

/// A bit field with its range resolved to a concrete start and width.
#[derive(Clone, Debug, PartialEq, Eq)]
pub struct ResolvedField {
    pub permission: Permission,
    pub name: Vec<u8>,
    pub range: ResolvedRange,
    pub options: Option<FieldOptions>,
}

/// A register with every field's range resolved.
#[derive(Clone, Debug, PartialEq, Eq)]
pub struct ResolvedRegister {
    pub name: Vec<u8>,
    pub ty: IntType,
    pub addr: u64,
    pub fields: Vec<ResolvedField>,
}

/// A register block with every range resolved: the input of the layout
/// validator.
#[derive(Clone, Debug, PartialEq, Eq)]
pub struct ResolvedBlock {
    pub name: Vec<u8>,
    pub registers: Vec<ResolvedRegister>,
}

/// Whether `rf` is the resolution of the written field `f` against a
/// register of `bits` bits.
pub open spec fn field_resolves_to(f: BitField, bits: u64, rf: ResolvedField) -> bool {
    &&& f.range.resolvable(bits)
    &&& rf.permission == f.permission
    &&& rf.name@ == f.name@
    &&& rf.range == f.range.spec_resolved(bits)
    &&& rf.options == f.options
}

/// Whether `rr` is the resolution of the register layout `l`.
pub open spec fn register_resolves_to(l: RegisterLayout, rr: ResolvedRegister) -> bool {
    &&& rr.name@ == l.reg.name@
    &&& rr.ty == l.reg.ty
    &&& rr.addr == l.addr
    &&& rr.fields.len() == l.reg.fields.len()
    &&& forall|i: int|
        0 <= i < l.reg.fields.len() ==> field_resolves_to(
            l.reg.fields[i],
            l.reg.ty.spec_bits(),
            #[trigger] rr.fields[i],
        )
}

/// Whether `rb` is the resolution of the parsed block `b`.
pub open spec fn block_resolves_to(b: RegisterBlock, rb: ResolvedBlock) -> bool {
    &&& rb.name@ == b.name@
    &&& rb.registers.len() == b.registers.len()
    &&& forall|i: int|
        0 <= i < b.registers.len() ==> register_resolves_to(
            b.registers[i],
            #[trigger] rb.registers[i],
        )
}

/// Whether every range of one register layout resolves against the
/// register's declared width.
pub open spec fn register_resolvable(l: RegisterLayout) -> bool {
    forall|j: int|
        0 <= j < l.reg.fields.len() ==> (#[trigger] l.reg.fields[j]).range.resolvable(
            l.reg.ty.spec_bits(),
        )
}

/// Whether every range of the parsed block resolves against its owning
/// register's declared width.
pub open spec fn block_resolvable(b: RegisterBlock) -> bool {
    forall|i: int| 0 <= i < b.registers.len() ==> register_resolvable(#[trigger] b.registers[i])
}

/// Resolves one register layout, standing at index `at` of the block.
#[verifier::loop_isolation(false)]
fn resolve_register(l: RegisterLayout, at: usize) -> (r: Result<ResolvedRegister, SemanticError>)
    ensures
        r is Ok ==> register_resolves_to(l, r.unwrap()),
        r is Ok <==> register_resolvable(l),
        r matches Err(e) ==> {
            &&& e.register == at
            &&& e.field < l.reg.fields.len()
            &&& !l.reg.fields[e.field as int].range.resolvable(l.reg.ty.spec_bits())
            &&& e.kind == l.reg.fields[e.field as int].range.spec_resolve_err(l.reg.ty.spec_bits())
        },
{
    let ghost l0 = l;
    let RegisterLayout { addr, reg } = l;
    let bits = reg.ty.bits();
    let ty = reg.ty;
    let name = reg.name;
    let mut rest: Vec<BitField> = reg.fields;
    let mut fields: Vec<ResolvedField> = Vec::new();
    while rest.len() > 0
        invariant
            bits == l0.reg.ty.spec_bits(),
            fields.len() + rest.len() == l0.reg.fields.len(),
            rest@ =~= l0.reg.fields@.skip(fields.len() as int),
            forall|k: int|
                0 <= k < fields.len() ==> field_resolves_to(
                    l0.reg.fields[k],
                    l0.reg.ty.spec_bits(),
                    #[trigger] fields[k],
                ),
        decreases rest.len(),
    {
        let at_field = fields.len();
        let ghost done = fields.len() as int;
        let f = rest.remove(0);
        assert(f == l0.reg.fields[done]);
        let BitField { permission, name: fname, range, options } = f;
        let resolved = match range.resolve(bits) {
            Ok(rr) => rr,
            Err(k) => {
                proof {
                    assert(!l0.reg.fields[done].range.resolvable(l0.reg.ty.spec_bits()));
                    if register_resolvable(l0) {
                        assert(l0.reg.fields[done].range.resolvable(l0.reg.ty.spec_bits()));
                    }
                }
                return Err(SemanticError { register: at, field: at_field, kind: k });
            },
        };
        fields.push(ResolvedField { permission, name: fname, range: resolved, options });
        assert(rest@ =~= l0.reg.fields@.skip(fields.len() as int));
    }
    proof {
        assert forall|j: int|
            0 <= j < l0.reg.fields.len() implies (#[trigger] l0.reg.fields[j]).range.resolvable(
            l0.reg.ty.spec_bits(),
        ) by {
            assert(field_resolves_to(l0.reg.fields[j], l0.reg.ty.spec_bits(), fields[j]));
        }
    }
    Ok(ResolvedRegister { name, ty, addr, fields })
}

/// Resolves every field range of a parsed register block against its
/// owning register's declared width, producing the concrete layout model.
///
/// Resolution succeeds exactly when every range is resolvable; the first
/// unresolvable range aborts the unit with its semantic error.
#[verifier::loop_isolation(false)]
pub fn resolve_block(b: RegisterBlock) -> (r: Result<ResolvedBlock, SemanticError>)
    ensures
        r is Ok ==> block_resolves_to(b, r.unwrap()),
        r is Ok <==> block_resolvable(b),
        r matches Err(e) ==> {
            &&& e.register < b.registers.len()
            &&& e.field < b.registers[e.register as int].reg.fields.len()
            &&& !b.registers[e.register as int].reg.fields[e.field as int].range.resolvable(
                b.registers[e.register as int].reg.ty.spec_bits(),
            )
            &&& e.kind == b.registers[e.register as int].reg.fields[e.field as int].range.spec_resolve_err(
                b.registers[e.register as int].reg.ty.spec_bits(),
            )
        },
{
    let ghost b0 = b;
    let RegisterBlock { vis_pub: _, name, registers } = b;
    let mut rest: Vec<RegisterLayout> = registers;
    let mut resolved: Vec<ResolvedRegister> = Vec::new();
    while rest.len() > 0
        invariant
            resolved.len() + rest.len() == b0.registers.len(),
            rest@ =~= b0.registers@.skip(resolved.len() as int),
            forall|k: int|
                0 <= k < resolved.len() ==> register_resolves_to(
                    b0.registers[k],
                    #[trigger] resolved[k],
                ),
        decreases rest.len(),
    {
        let at = resolved.len();
        let ghost done = resolved.len() as int;
        let l = rest.remove(0);
        assert(l == b0.registers[done]);
        let ghost lg = l;
        let rr = match resolve_register(l, at) {
            Ok(rr) => rr,
            Err(e) => {
                proof {
                    if block_resolvable(b0) {
                        assert(register_resolvable(b0.registers[done]));
                        assert(register_resolvable(lg));
                    }
                }
                return Err(e);
            },
        };
        resolved.push(rr);
        assert(rest@ =~= b0.registers@.skip(resolved.len() as int));
    }
    proof {
        assert forall|i: int|
            0 <= i < b0.registers.len() implies register_resolvable(#[trigger] b0.registers[i]) by {
            assert(register_resolves_to(b0.registers[i], resolved@[i]));
            assert forall|j: int|
                0 <= j < b0.registers[i].reg.fields.len() implies (
            #[trigger] b0.registers[i].reg.fields[j]).range.resolvable(
                b0.registers[i].reg.ty.spec_bits(),
            ) by {
                assert(field_resolves_to(
                    b0.registers[i].reg.fields[j],
                    b0.registers[i].reg.ty.spec_bits(),
                    resolved@[i].fields[j],
                ));
            }
        }
    }
    Ok(ResolvedBlock { name, registers: resolved })
}

} // verus!
