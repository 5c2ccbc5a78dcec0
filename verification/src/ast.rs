//! The syntax tree of the register-description language, and the range
//! arithmetic that normalizes a written bit range into a concrete
//! `(start, width)` pair.
//!
//! Identifiers are carried as byte strings exactly as they stood in the
//! source. Attributes are recognized by the parser but not retained: no
//! later stage of the pipeline consumes them.

use vstd::prelude::*;

use crate::error::SemanticErrorKind;

verus! {

/// The permission levels for register bit-field access.
#[derive(Clone, Copy, Debug, PartialEq, Eq, Structural)]
pub enum Permission {
    Read,
    Write,
    ReadWrite,
}

impl Permission {
    /// Whether this level grants read access.
    pub open spec fn spec_readable(self) -> bool {
        self == Permission::Read || self == Permission::ReadWrite
    }

    /// Whether this level grants write access.
    pub open spec fn spec_writable(self) -> bool {
        self == Permission::Write || self == Permission::ReadWrite
    }

    /// Combines two permission levels into the most permissive level
    /// both sides actually support: full access is reconcilable with
    /// anything at the other side's own level, equal levels keep their
    /// level, and read-only with write-only is not combinable.
    pub fn combine(self, other: Permission) -> (r: Option<Permission>)
        ensures
            self == Permission::ReadWrite ==> r == Some(other),
            other == Permission::ReadWrite ==> r == Some(self),
            self == other ==> r == Some(self),
            r is None <==> (self == Permission::Read && other == Permission::Write) || (self
                == Permission::Write && other == Permission::Read),
            r matches Some(p) ==> (p.spec_readable() <==> self.spec_readable()
                && other.spec_readable()) && (p.spec_writable() <==> self.spec_writable()
                && other.spec_writable()),
    {
        match (self, other) {
            (Permission::ReadWrite, p) => Some(p),
            (p, Permission::ReadWrite) => Some(p),
            (Permission::Read, Permission::Read) => Some(Permission::Read),
            (Permission::Write, Permission::Write) => Some(Permission::Write),
            _ => None,
        }
    }
}

/// The closed set of integer types a register may be backed by.
#[derive(Clone, Copy, Debug, PartialEq, Eq, Structural)]
pub enum IntType {
    U8,
    U16,
    U32,
    U64,
}

impl IntType {
    /// The number of bits of this backing type.
    pub open spec fn spec_bits(self) -> u64 {
        match self {
            IntType::U8 => 8,
            IntType::U16 => 16,
            IntType::U32 => 32,
            IntType::U64 => 64,
        }
    }

    /// The number of bytes of this backing type; the alignment a register
    /// block's base address owes to its first register.
    pub open spec fn spec_bytes(self) -> u64 {
        self.spec_bits() / 8
    }

    pub fn bits(self) -> (r: u64)
        ensures
            r == self.spec_bits(),
    {
        match self {
            IntType::U8 => 8,
            IntType::U16 => 16,
            IntType::U32 => 32,
            IntType::U64 => 64,
        }
    }

    pub fn bytes(self) -> (r: u64)
        ensures
            r == self.spec_bytes(),
    {
        match self {
            IntType::U8 => 1,
            IntType::U16 => 2,
            IntType::U32 => 4,
            IntType::U64 => 8,
        }
    }
}

/// The upper bound of a written range expression.
#[derive(Clone, Copy, Debug, PartialEq, Eq)]
pub enum RangeTo {
    /// `a..` — extends to the top of the owning register; resolution of
    /// the end is deferred until the register's declared width is known.
    Open,
    /// `a..b` — exclusive upper bound.
    Excl(u64),
    /// `a..=b` — inclusive upper bound.
    Incl(u64),
}

/// The bit range of a register field, as written.
#[derive(Clone, Copy, Debug, PartialEq, Eq)]
pub enum RegisterRange {
    /// A single literal `n`, denoting exactly bit `n`.
    Lit(u64),
    /// A range expression with an optional lower bound (0 when omitted).
    Span { from: Option<u64>, to: RangeTo },
}

/// A resolved bit range: a concrete starting bit and width.
#[derive(Clone, Copy, Debug, PartialEq, Eq, Structural)]
pub struct ResolvedRange {
    pub start: u64,
    pub width: u64,
}

impl RegisterRange {
    /// The starting bit of the range; 0 when the lower bound is omitted.
    pub open spec fn spec_start(self) -> u64 {
        match self {
            RegisterRange::Lit(n) => n,
            RegisterRange::Span { from: Some(a), .. } => a,
            RegisterRange::Span { from: None, .. } => 0,
        }
    }

    /// The normalized exclusive end of the range, as an unbounded integer:
    /// `n + 1` for a single-bit literal, `b` for an exclusive bound,
    /// `b + 1` for an inclusive bound, and `None` when the end is deferred
    /// to the owning register's declared width.
    pub open spec fn spec_norm_end(self) -> Option<int> {
        match self {
            RegisterRange::Lit(n) => Some(n + 1),
            RegisterRange::Span { to: RangeTo::Open, .. } => None,
            RegisterRange::Span { to: RangeTo::Excl(b), .. } => Some(b as int),
            RegisterRange::Span { to: RangeTo::Incl(b), .. } => Some(b + 1),
        }
    }

    /// Whether the range resolves against a register of `bits` bits. A
    /// single-bit literal always resolves; a bounded range needs its
    /// normalized exclusive end to reach its start and fit the
    /// bit-position type; a deferred end needs the start within the
    /// declared width.
    pub open spec fn resolvable(self, bits: u64) -> bool {
        if self is Lit {
            true
        } else {
            match self.spec_norm_end() {
                Some(e) => self.spec_start() <= e <= u64::MAX,
                None => self.spec_start() <= bits,
            }
        }
    }

    /// The semantic error an unresolvable range is rejected with (only
    /// range expressions can be unresolvable): a normalized end beyond
    /// the bit-position type is an overflow, any other failure an end
    /// that does not reach the start.
    pub open spec fn spec_resolve_err(self, bits: u64) -> SemanticErrorKind {
        match self.spec_norm_end() {
            Some(e) => if e > u64::MAX {
                SemanticErrorKind::BoundTooLarge
            } else {
                SemanticErrorKind::EndBeforeStart
            },
            None => SemanticErrorKind::EndBeforeStart,
        }
    }

    /// The `(start, width)` pair a resolvable range resolves to.
    pub open spec fn spec_resolved(self, bits: u64) -> ResolvedRange {
        let end = match self.spec_norm_end() {
            Some(e) => e,
            None => bits as int,
        };
        ResolvedRange {
            start: self.spec_start(),
            width: (end - self.spec_start()) as u64,
        }
    }

    /// The starting bit of the range expression.
    pub fn start(&self) -> (r: u64)
        ensures
            r == self.spec_start(),
    {
        match self {
            RegisterRange::Lit(n) => *n,
            RegisterRange::Span { from, .. } => match from {
                Some(a) => *a,
                None => 0,
            },
        }
    }

    /// The normalized exclusive end of the range expression, or `None`
    /// when the range spans the entire remaining width of the register
    /// and must be resolved once the declared width is known.
    ///
    /// A range whose normalized end does not reach its start is always a
    /// semantic error, never an empty or reordered range.
    pub fn end(&self) -> (r: Result<Option<u64>, SemanticErrorKind>)
        ensures
            match r {
                Ok(e) => match e {
                    Some(v) => self.spec_norm_end() == Some(v as int) && self.spec_start() <= v,
                    None => self.spec_norm_end() is None,
                },
                Err(e) => match self.spec_norm_end() {
                    Some(end) => (e == SemanticErrorKind::BoundTooLarge <==> end > u64::MAX) && (e
                        == SemanticErrorKind::EndBeforeStart <==> end <= u64::MAX && end
                        < self.spec_start()),
                    None => false,
                },
            },
            r is Ok <==> (match self.spec_norm_end() {
                Some(e) => self.spec_start() <= e <= u64::MAX,
                None => true,
            }),
    {
        match self {
            RegisterRange::Lit(n) => {
                if *n == u64::MAX {
                    Err(SemanticErrorKind::BoundTooLarge)
                } else {
                    Ok(Some(*n + 1))
                }
            },
            RegisterRange::Span { from: _, to } => {
                let start = self.start();
                let end: Option<u64> = match to {
                    RangeTo::Open => None,
                    RangeTo::Excl(b) => Some(*b),
                    RangeTo::Incl(b) => {
                        if *b == u64::MAX {
                            return Err(SemanticErrorKind::BoundTooLarge);
                        }
                        Some(*b + 1)
                    },
                };
                match end {
                    Some(e) => {
                        if e < start {
                            Err(SemanticErrorKind::EndBeforeStart)
                        } else {
                            Ok(Some(e))
                        }
                    },
                    None => Ok(None),
                }
            },
        }
    }

    /// Resolves the range against the declared width of the owning
    /// register into a concrete `(start, width)` pair.
    ///
    /// A single-bit literal `n` resolves to `(n, 1)` independently of
    /// both the register width and its numeric position; containment is
    /// the layout validator's concern. A bounded range resolves to its
    /// start and `end - start`; a deferred end becomes the declared
    /// width itself. Whenever the normalized end does not reach the
    /// start the range is rejected, never clamped.
    pub fn resolve(&self, bits: u64) -> (r: Result<ResolvedRange, SemanticErrorKind>)
        ensures
            r is Ok <==> self.resolvable(bits),
            r is Ok ==> r == Ok::<_, SemanticErrorKind>(self.spec_resolved(bits)),
            r is Err ==> r == Err::<ResolvedRange, _>(self.spec_resolve_err(bits)),
            self is Lit ==> r == Ok::<_, SemanticErrorKind>(
                ResolvedRange { start: self.spec_start(), width: 1 },
            ),
    {
        if let RegisterRange::Lit(n) = self {
            return Ok(ResolvedRange { start: *n, width: 1 });
        }
        let start = self.start();
        match self.end()? {
            Some(e) => Ok(ResolvedRange { start, width: e - start }),
            None => {
                if start <= bits {
                    Ok(ResolvedRange { start, width: bits - start })
                } else {
                    Err(SemanticErrorKind::EndBeforeStart)
                }
            },
        }
    }
}

impl ResolvedRange {
    /// The exclusive end of the resolved range.
    pub open spec fn spec_end(self) -> int {
        self.start + self.width
    }
}

/// Post-resolution, the width of a resolved range is exactly the distance
/// from its normalized exclusive end to its start, and that end is never
/// below the start: violating ranges are rejected, never clamped.
pub proof fn lemma_resolved_width(r: RegisterRange, bits: u64)
    requires
        r.resolvable(bits),
    ensures
        ({
            let end = match r.spec_norm_end() {
                Some(e) => e,
                None => bits as int,
            };
            &&& r.spec_resolved(bits).start == r.spec_start()
            &&& r.spec_resolved(bits).width == end - r.spec_resolved(bits).start
            &&& end >= r.spec_resolved(bits).start
            &&& r.spec_resolved(bits).spec_end() == end
        }),
{
}

/// A single-bit literal resolves to width 1 regardless of its numeric
/// position and of the register width.
pub proof fn lemma_literal_width_one(n: u64, bits: u64)
    ensures
        RegisterRange::Lit(n).resolvable(bits),
        RegisterRange::Lit(n).spec_resolved(bits) == (ResolvedRange { start: n, width: 1 }),
{
}

/// Byte-string equality, used to compare identifiers.
pub fn bytes_eq(a: &Vec<u8>, b: &Vec<u8>) -> (r: bool)
    ensures
        r == (a@ == b@),
{
    if a.len() != b.len() {
        assert(a@ != b@);
        return false;
    }
    let mut i: usize = 0;
    while i < a.len()
        invariant
            0 <= i <= a.len(),
            a@.len() == b@.len(),
            forall|k: int| 0 <= k < i ==> a@[k] == b@[k],
        decreases a.len() - i,
    {
        if a[i] != b[i] {
            return false;
        }
        i += 1;
    }
    assert(a@ =~= b@);
    true
}

/// An exact copy of a byte string.
pub fn copy_bytes(v: &Vec<u8>) -> (r: Vec<u8>)
    ensures
        r@ == v@,
{
    let mut out: Vec<u8> = Vec::new();
    let mut i: usize = 0;
    while i < v.len()
        invariant
            0 <= i <= v.len(),
            out@ =~= v@.subrange(0, i as int),
        decreases v.len() - i,
    {
        out.push(v[i]);
        i += 1;
        assert(out@ =~= v@.subrange(0, i as int));
    }
    assert(out@ =~= v@);
    out
}

/// One named discriminant of a field's value enumeration.
#[derive(Clone, Debug, PartialEq, Eq)]
pub struct Discriminant {
    pub name: Vec<u8>,
    pub value: u64,
}

/// A named enumeration of symbolic values a field may take.
#[derive(Clone, Debug, PartialEq, Eq)]
pub struct FieldOptions {
    pub name: Vec<u8>,
    pub discriminants: Vec<Discriminant>,
}

/// An individual bit-field definition within a register.
#[derive(Clone, Debug, PartialEq, Eq)]
pub struct BitField {
    pub permission: Permission,
    pub name: Vec<u8>,
    pub range: RegisterRange,
    pub options: Option<FieldOptions>,
}

/// A register definition: its visibility, name, backing integer type and
/// bit fields.
#[derive(Clone, Debug, PartialEq, Eq)]
pub struct RegisterDef {
    pub vis_pub: bool,
    pub name: Vec<u8>,
    pub ty: IntType,
    pub fields: Vec<BitField>,
}

/// The memory layout of one register: its address offset relative to the
/// block base, and its definition.
#[derive(Clone, Debug, PartialEq, Eq)]
pub struct RegisterLayout {
    pub addr: u64,
    pub reg: RegisterDef,
}

impl RegisterLayout {
    /// The address offset of the register in memory.
    pub fn address(&self) -> (r: u64)
        ensures
            r == self.addr,
    {
        self.addr
    }
}

/// A register block: a named collection of registers and their mapping
/// offsets in memory.
#[derive(Clone, Debug, PartialEq, Eq)]
pub struct RegisterBlock {
    pub vis_pub: bool,
    pub name: Vec<u8>,
    pub registers: Vec<RegisterLayout>,
}

/// A whole compilation unit: an optional override directive selecting an
/// alternate runtime-layer namespace, then a register block.
#[derive(Clone, Debug, PartialEq, Eq)]
pub struct Input {
    pub krate: Option<Vec<Vec<u8>>>,
    pub item: RegisterBlock,
}

} // verus!
