//! The parser: a recursive-descent reading of the token stream into the
//! syntax tree, verified against a specification of the grammar.
//!
//! Each grammar production has a spec-level recognizer (`*_end`, giving
//! the position after a successful parse) and, where the production
//! builds a tree node, a relation (`*_rel`) tying the consumed tokens to
//! the node. Every parse function succeeds exactly when its recognizer
//! does, and its result stands in the relation to the tokens it consumed.

use vstd::prelude::*;

use crate::ast::{
    BitField, Discriminant, FieldOptions, Input, IntType, Permission, RangeTo, RegisterBlock,
    RegisterDef, RegisterLayout, RegisterRange,
};
use crate::error::{SyntaxError, SyntaxErrorKind};
use crate::lex::Token;

verus! {

/// The permission level the identifier bytes denote, if any: the accepted
/// set is exactly `r`, `w` and `rw`.
pub open spec fn spec_perm_of(s: Seq<u8>) -> Option<Permission> {
    if s == seq![114u8] {
        Some(Permission::Read)
    } else if s == seq![119u8] {
        Some(Permission::Write)
    } else if s == seq![114u8, 119u8] {
        Some(Permission::ReadWrite)
    } else {
        None
    }
}

/// The backing integer type the identifier bytes denote, if any: the
/// closed set is exactly `u8`, `u16`, `u32` and `u64`.
pub open spec fn spec_int_type_of(s: Seq<u8>) -> Option<IntType> {
    if s == seq![117u8, 56u8] {
        Some(IntType::U8)
    } else if s == seq![117u8, 49u8, 54u8] {
        Some(IntType::U16)
    } else if s == seq![117u8, 51u8, 50u8] {
        Some(IntType::U32)
    } else if s == seq![117u8, 54u8, 52u8] {
        Some(IntType::U64)
    } else {
        None
    }
}

/// The range expression starting at token `i`, and the position after
/// it: a single integer literal (not followed by a range operator), or a
/// range with optional bounds, where `..=` requires its upper bound.
pub open spec fn range_at(toks: Seq<Token>, i: int) -> Option<(RegisterRange, int)> {
    if i < toks.len() {
        match toks[i] {
            Token::Int(n) => {
                if i + 1 < toks.len() && toks[i + 1] == Token::DotDot {
                    if i + 2 < toks.len() {
                        match toks[i + 2] {
                            Token::Int(b) => Some(
                                (RegisterRange::Span { from: Some(n), to: RangeTo::Excl(b) }, i + 3),
                            ),
                            _ => Some(
                                (RegisterRange::Span { from: Some(n), to: RangeTo::Open }, i + 2),
                            ),
                        }
                    } else {
                        Some((RegisterRange::Span { from: Some(n), to: RangeTo::Open }, i + 2))
                    }
                } else if i + 1 < toks.len() && toks[i + 1] == Token::DotDotEq {
                    if i + 2 < toks.len() {
                        match toks[i + 2] {
                            Token::Int(b) => Some(
                                (RegisterRange::Span { from: Some(n), to: RangeTo::Incl(b) }, i + 3),
                            ),
                            _ => None,
                        }
                    } else {
                        None
                    }
                } else {
                    Some((RegisterRange::Lit(n), i + 1))
                }
            },
            Token::DotDot => {
                if i + 1 < toks.len() {
                    match toks[i + 1] {
                        Token::Int(b) => Some(
                            (RegisterRange::Span { from: None, to: RangeTo::Excl(b) }, i + 2),
                        ),
                        _ => Some((RegisterRange::Span { from: None, to: RangeTo::Open }, i + 1)),
                    }
                } else {
                    Some((RegisterRange::Span { from: None, to: RangeTo::Open }, i + 1))
                }
            },
            Token::DotDotEq => {
                if i + 1 < toks.len() {
                    match toks[i + 1] {
                        Token::Int(b) => Some(
                            (RegisterRange::Span { from: None, to: RangeTo::Incl(b) }, i + 2),
                        ),
                        _ => None,
                    }
                } else {
                    None
                }
            },
            _ => None,
        }
    } else {
        None
    }
}

/// A syntax error at token position `pos`.
pub open spec fn serr(pos: int, kind: SyntaxErrorKind) -> SyntaxError {
    SyntaxError { pos: pos as usize, kind }
}

/// The error a failed permission parse reports: the end of input, a
/// non-identifier token, or an identifier outside the accepted set.
pub open spec fn perm_err(toks: Seq<Token>, i: int) -> SyntaxError {
    if i >= toks.len() {
        serr(i, SyntaxErrorKind::UnexpectedEnd)
    } else {
        match toks[i] {
            Token::Ident(_) => serr(i, SyntaxErrorKind::UnknownPermission),
            _ => serr(i, SyntaxErrorKind::ExpectedIdent),
        }
    }
}

/// The error a failed backing-type parse reports.
pub open spec fn int_type_err(toks: Seq<Token>, i: int) -> SyntaxError {
    if i >= toks.len() {
        serr(i, SyntaxErrorKind::UnexpectedEnd)
    } else {
        match toks[i] {
            Token::Ident(_) => serr(i, SyntaxErrorKind::UnknownIntType),
            _ => serr(i, SyntaxErrorKind::ExpectedIdent),
        }
    }
}

/// The error a failed range parse reports: an inclusive range missing
/// its upper bound wants an integer literal; anything that is neither an
/// integer literal nor a range expression is rejected as a field-width
/// error.
pub open spec fn range_err(toks: Seq<Token>, i: int) -> SyntaxError {
    if i < toks.len() && (toks[i] is Int || toks[i] is DotDotEq) {
        serr(i, SyntaxErrorKind::ExpectedInt)
    } else {
        serr(i, SyntaxErrorKind::ExpectedRangeOrInt)
    }
}

impl Permission {
    /// Parses one permission token. Exactly the identifiers `r`, `w` and
    /// `rw` are accepted; any other identifier is rejected with an error
    /// naming the accepted set.
    pub fn parse(toks: &Vec<Token>, i: usize) -> (r: Result<(Permission, usize), SyntaxError>)
        ensures
            r matches Ok((p, j)) ==> {
                &&& j == i + 1
                &&& i < toks.len()
                &&& match toks[i as int] {
                    Token::Ident(s) => spec_perm_of(s@) == Some(p),
                    _ => false,
                }
            },
            r matches Err(e) ==> e.pos == i && match e.kind {
                SyntaxErrorKind::UnexpectedEnd => i >= toks.len(),
                SyntaxErrorKind::UnknownPermission => i < toks.len() && match toks[i as int] {
                    Token::Ident(s) => spec_perm_of(s@) is None,
                    _ => false,
                },
                SyntaxErrorKind::ExpectedIdent => i < toks.len() && !(toks[i as int] is Ident),
                _ => false,
            },
            r is Err <==> !(i < toks.len() && match toks[i as int] {
                Token::Ident(s) => spec_perm_of(s@) is Some,
                _ => false,
            }),
            r matches Err(e) ==> e == perm_err(toks@, i as int),
    {
        if i >= toks.len() {
            return Err(SyntaxError { pos: i, kind: SyntaxErrorKind::UnexpectedEnd });
        }
        match &toks[i] {
            Token::Ident(s) => {
                if s.len() == 1 && s[0] == 114 {
                    assert(s@ =~= seq![114u8]);
                    Ok((Permission::Read, i + 1))
                } else if s.len() == 1 && s[0] == 119 {
                    assert(s@ =~= seq![119u8]);
                    Ok((Permission::Write, i + 1))
                } else if s.len() == 2 && s[0] == 114 && s[1] == 119 {
                    assert(s@ =~= seq![114u8, 119u8]);
                    Ok((Permission::ReadWrite, i + 1))
                } else {
                    proof {
                        if s@ == seq![114u8] {
                            assert(s@.len() == 1 && s@[0] == 114u8);
                        }
                        if s@ == seq![119u8] {
                            assert(s@.len() == 1 && s@[0] == 119u8);
                        }
                        if s@ == seq![114u8, 119u8] {
                            assert(s@.len() == 2 && s@[0] == 114u8 && s@[1] == 119u8);
                        }
                    }
                    Err(SyntaxError { pos: i, kind: SyntaxErrorKind::UnknownPermission })
                }
            },
            _ => Err(SyntaxError { pos: i, kind: SyntaxErrorKind::ExpectedIdent }),
        }
    }
}

/// Parses the identifier naming a backing integer type.
fn parse_int_type(toks: &Vec<Token>, i: usize) -> (r: Result<(IntType, usize), SyntaxError>)
    ensures
        r matches Ok((t, j)) ==> {
            &&& j == i + 1
            &&& i < toks.len()
            &&& match toks[i as int] {
                Token::Ident(s) => spec_int_type_of(s@) == Some(t),
                _ => false,
            }
        },
        r is Err <==> !(i < toks.len() && match toks[i as int] {
            Token::Ident(s) => spec_int_type_of(s@) is Some,
            _ => false,
        }),
        r matches Err(e) ==> e == int_type_err(toks@, i as int),
{
    if i >= toks.len() {
        return Err(SyntaxError { pos: i, kind: SyntaxErrorKind::UnexpectedEnd });
    }
    match &toks[i] {
        Token::Ident(s) => {
            if s.len() == 2 && s[0] == 117 && s[1] == 56 {
                assert(s@ =~= seq![117u8, 56u8]);
                Ok((IntType::U8, i + 1))
            } else if s.len() == 3 && s[0] == 117 && s[1] == 49 && s[2] == 54 {
                assert(s@ =~= seq![117u8, 49u8, 54u8]);
                Ok((IntType::U16, i + 1))
            } else if s.len() == 3 && s[0] == 117 && s[1] == 51 && s[2] == 50 {
                assert(s@ =~= seq![117u8, 51u8, 50u8]);
                Ok((IntType::U32, i + 1))
            } else if s.len() == 3 && s[0] == 117 && s[1] == 54 && s[2] == 52 {
                assert(s@ =~= seq![117u8, 54u8, 52u8]);
                Ok((IntType::U64, i + 1))
            } else {
                proof {
                    if s@ == seq![117u8, 56u8] {
                        assert(s@.len() == 2 && s@[0] == 117u8 && s@[1] == 56u8);
                    }
                    if s@ == seq![117u8, 49u8, 54u8] {
                        assert(s@.len() == 3 && s@[0] == 117u8 && s@[1] == 49u8 && s@[2] == 54u8);
                    }
                    if s@ == seq![117u8, 51u8, 50u8] {
                        assert(s@.len() == 3 && s@[0] == 117u8 && s@[1] == 51u8 && s@[2] == 50u8);
                    }
                    if s@ == seq![117u8, 54u8, 52u8] {
                        assert(s@.len() == 3 && s@[0] == 117u8 && s@[1] == 54u8 && s@[2] == 52u8);
                    }
                }
                Err(SyntaxError { pos: i, kind: SyntaxErrorKind::UnknownIntType })
            }
        },
        _ => Err(SyntaxError { pos: i, kind: SyntaxErrorKind::ExpectedIdent }),
    }
}

impl RegisterRange {
    /// Parses a field's range expression: an integer literal becomes a
    /// single-bit range, a range expression a bounded or open range, and
    /// anything else is rejected as a field-width error.
    pub fn parse(toks: &Vec<Token>, i: usize) -> (r: Result<(RegisterRange, usize), SyntaxError>)
        ensures
            r matches Ok((rr, j)) ==> range_at(toks@, i as int) == Some((rr, j as int)),
            r is Ok <==> range_at(toks@, i as int) is Some,
            r matches Err(e) ==> e == range_err(toks@, i as int),
    {
        if i >= toks.len() {
            return Err(SyntaxError { pos: i, kind: SyntaxErrorKind::ExpectedRangeOrInt });
        }
        match &toks[i] {
            Token::Int(n) => {
                let n = *n;
                let after_dotdot = i + 1 < toks.len() && match &toks[i + 1] {
                    Token::DotDot => true,
                    _ => false,
                };
                let after_dotdoteq = i + 1 < toks.len() && match &toks[i + 1] {
                    Token::DotDotEq => true,
                    _ => false,
                };
                if after_dotdot {
                    if i + 2 < toks.len() {
                        match &toks[i + 2] {
                            Token::Int(b) => Ok(
                                (
                                    RegisterRange::Span { from: Some(n), to: RangeTo::Excl(*b) },
                                    i + 3,
                                ),
                            ),
                            _ => Ok(
                                (RegisterRange::Span { from: Some(n), to: RangeTo::Open }, i + 2),
                            ),
                        }
                    } else {
                        Ok((RegisterRange::Span { from: Some(n), to: RangeTo::Open }, i + 2))
                    }
                } else if after_dotdoteq {
                    if i + 2 < toks.len() {
                        match &toks[i + 2] {
                            Token::Int(b) => Ok(
                                (
                                    RegisterRange::Span { from: Some(n), to: RangeTo::Incl(*b) },
                                    i + 3,
                                ),
                            ),
                            _ => Err(SyntaxError { pos: i, kind: SyntaxErrorKind::ExpectedInt }),
                        }
                    } else {
                        Err(SyntaxError { pos: i, kind: SyntaxErrorKind::ExpectedInt })
                    }
                } else {
                    Ok((RegisterRange::Lit(n), i + 1))
                }
            },
            Token::DotDot => {
                if i + 1 < toks.len() {
                    match &toks[i + 1] {
                        Token::Int(b) => Ok(
                            (RegisterRange::Span { from: None, to: RangeTo::Excl(*b) }, i + 2),
                        ),
                        _ => Ok((RegisterRange::Span { from: None, to: RangeTo::Open }, i + 1)),
                    }
                } else {
                    Ok((RegisterRange::Span { from: None, to: RangeTo::Open }, i + 1))
                }
            },
            Token::DotDotEq => {
                if i + 1 < toks.len() {
                    match &toks[i + 1] {
                        Token::Int(b) => Ok(
                            (RegisterRange::Span { from: None, to: RangeTo::Incl(*b) }, i + 2),
                        ),
                        _ => Err(SyntaxError { pos: i, kind: SyntaxErrorKind::ExpectedInt }),
                    }
                } else {
                    Err(SyntaxError { pos: i, kind: SyntaxErrorKind::ExpectedInt })
                }
            },
            _ => Err(SyntaxError { pos: i, kind: SyntaxErrorKind::ExpectedRangeOrInt }),
        }
    }
}

/// Whether token position `i + n` exists: an overflow-safe bounds test.
fn in_range(toks: &Vec<Token>, i: usize, n: usize) -> (r: bool)
    ensures
        r == (i + n < toks@.len()),
        toks@.len() <= usize::MAX,
{
    n < toks.len() && i < toks.len() - n
}

/// The discriminant list starting at token `i` (just after the opening
/// brace of an options body) together with its closing brace, and the
/// position after it. Elements are `ident = int`, separated by commas,
/// with an optional trailing comma.
pub open spec fn discs_end(toks: Seq<Token>, i: int) -> Option<int>
    decreases toks.len() - i,
{
    if i < toks.len() && toks[i] is RBrace {
        Some(i + 1)
    } else if i + 2 < toks.len() && toks[i] is Ident && toks[i + 1] is Eq && toks[i + 2] is Int {
        if i + 3 < toks.len() && toks[i + 3] is Comma {
            discs_end(toks, i + 4)
        } else if i + 3 < toks.len() && toks[i + 3] is RBrace {
            Some(i + 4)
        } else {
            None
        }
    } else {
        None
    }
}

/// Whether the tokens from `i` up to `j` spell exactly the discriminant
/// list `ds` followed by its closing brace.
pub open spec fn discs_rel(toks: Seq<Token>, i: int, ds: Seq<Discriminant>, j: int) -> bool
    decreases ds.len(),
{
    if ds.len() == 0 {
        i < toks.len() && toks[i] is RBrace && j == i + 1
    } else {
        &&& i + 2 < toks.len()
        &&& match toks[i] {
            Token::Ident(nm) => nm@ == ds[0].name@,
            _ => false,
        }
        &&& toks[i + 1] is Eq
        &&& match toks[i + 2] {
            Token::Int(v) => v == ds[0].value,
            _ => false,
        }
        &&& if i + 3 < toks.len() && toks[i + 3] is Comma {
            discs_rel(toks, i + 4, ds.drop_first(), j)
        } else {
            i + 3 < toks.len() && toks[i + 3] is RBrace && ds.len() == 1 && j == i + 4
        }
    }
}

/// A recognized discriminant list ends after its starting position and
/// within the token stream.
pub proof fn lemma_discs_end_bounds(toks: Seq<Token>, i: int)
    ensures
        discs_end(toks, i) matches Some(j) ==> i < j <= toks.len(),
    decreases toks.len() - i,
{
    if i < toks.len() && toks[i] is RBrace {
    } else if i + 2 < toks.len() && toks[i] is Ident && toks[i + 1] is Eq && toks[i + 2] is Int {
        if i + 3 < toks.len() && toks[i + 3] is Comma {
            lemma_discs_end_bounds(toks, i + 4);
        }
    }
}

/// The error a failed discriminant-list parse reports, at the first
/// element that breaks the `ident = int` shape or the missing separator
/// after it. Meaningful exactly where [`discs_end`] is `None`.
pub open spec fn discs_err(toks: Seq<Token>, i: int) -> SyntaxError
    decreases toks.len() - i,
{
    if i < toks.len() && toks[i] is RBrace {
        serr(i, SyntaxErrorKind::UnexpectedEnd)
    } else if !(i + 2 < toks.len()) {
        serr(i, SyntaxErrorKind::UnexpectedEnd)
    } else if !(toks[i] is Ident) {
        serr(i, SyntaxErrorKind::ExpectedIdent)
    } else if !(toks[i + 1] is Eq) {
        serr(i + 1, SyntaxErrorKind::ExpectedToken)
    } else if !(toks[i + 2] is Int) {
        serr(i + 2, SyntaxErrorKind::ExpectedInt)
    } else if i + 3 < toks.len() && toks[i + 3] is Comma {
        discs_err(toks, i + 4)
    } else {
        serr(i + 3, SyntaxErrorKind::ExpectedToken)
    }
}

/// Parses a discriminant list up to and including its closing brace.
fn parse_discs(toks: &Vec<Token>, i: usize) -> (r: Result<(Vec<Discriminant>, usize), SyntaxError>)
    ensures
        r is Ok <==> discs_end(toks@, i as int) is Some,
        r matches Ok((ds, j)) ==> discs_end(toks@, i as int) == Some(j as int) && discs_rel(
            toks@,
            i as int,
            ds@,
            j as int,
        ),
        r matches Err(e) ==> e == discs_err(toks@, i as int),
    decreases toks.len() - i,
{
    if i < toks.len() && toks[i].is_rbrace() {
        let ds: Vec<Discriminant> = Vec::new();
        return Ok((ds, i + 1));
    }
    if !in_range(toks, i, 2) {
        return Err(SyntaxError { pos: i, kind: SyntaxErrorKind::UnexpectedEnd });
    }
    let name = match &toks[i] {
        Token::Ident(nm) => crate::ast::copy_bytes(nm),
        _ => {
            return Err(SyntaxError { pos: i, kind: SyntaxErrorKind::ExpectedIdent });
        },
    };
    if !toks[i + 1].is_eq_tok() {
        return Err(SyntaxError { pos: i + 1, kind: SyntaxErrorKind::ExpectedToken });
    }
    let value = match &toks[i + 2] {
        Token::Int(v) => *v,
        _ => {
            return Err(SyntaxError { pos: i + 2, kind: SyntaxErrorKind::ExpectedInt });
        },
    };
    let d = Discriminant { name, value };
    if i + 3 < toks.len() && toks[i + 3].is_comma() {
        let (rest, j) = match parse_discs(toks, i + 4) {
            Ok(p) => p,
            Err(e) => {
                return Err(e);
            },
        };
        let mut ds = rest;
        ds.insert(0, d);
        assert(ds@.drop_first() =~= ds@.subrange(1, ds@.len() as int));
        assert(ds@.drop_first() =~= rest@);
        return Ok((ds, j));
    }
    if i + 3 < toks.len() && toks[i + 3].is_rbrace() {
        let mut ds: Vec<Discriminant> = Vec::new();
        ds.push(d);
        return Ok((ds, i + 4));
    }
    Err(SyntaxError { pos: i + 3, kind: SyntaxErrorKind::ExpectedToken })
}

/// The options body starting at token `i`: `enum`, a name, and a braced
/// discriminant list.
pub open spec fn options_end(toks: Seq<Token>, i: int) -> Option<int> {
    if i + 2 < toks.len() && toks[i] is KwEnum && toks[i + 1] is Ident && toks[i + 2] is LBrace {
        discs_end(toks, i + 3)
    } else {
        None
    }
}

/// Whether the tokens from `i` up to `j` spell exactly the options `o`.
pub open spec fn options_rel(toks: Seq<Token>, i: int, o: FieldOptions, j: int) -> bool {
    &&& i + 2 < toks.len()
    &&& toks[i] is KwEnum
    &&& match toks[i + 1] {
        Token::Ident(nm) => nm@ == o.name@,
        _ => false,
    }
    &&& toks[i + 2] is LBrace
    &&& discs_rel(toks, i + 3, o.discriminants@, j)
}

/// A recognized options body ends after its starting position and within
/// the token stream.
pub proof fn lemma_options_end_bounds(toks: Seq<Token>, i: int)
    ensures
        options_end(toks, i) matches Some(j) ==> i < j <= toks.len(),
{
    lemma_discs_end_bounds(toks, i + 3);
}

/// The error a failed options parse reports: a broken `enum <name> {`
/// head, or the discriminant list's own error.
pub open spec fn options_err(toks: Seq<Token>, i: int) -> SyntaxError {
    if !(i + 2 < toks.len()) {
        serr(i, SyntaxErrorKind::UnexpectedEnd)
    } else if !(toks[i] is KwEnum) {
        serr(i, SyntaxErrorKind::ExpectedToken)
    } else if !(toks[i + 1] is Ident) {
        serr(i + 1, SyntaxErrorKind::ExpectedIdent)
    } else if !(toks[i + 2] is LBrace) {
        serr(i + 2, SyntaxErrorKind::ExpectedToken)
    } else {
        discs_err(toks, i + 3)
    }
}

impl FieldOptions {
    /// Parses a field's value enumeration: `enum <name> { <ident> =
    /// <int>, ... }`.
    pub fn parse(toks: &Vec<Token>, i: usize) -> (r: Result<(FieldOptions, usize), SyntaxError>)
        ensures
            r is Ok <==> options_end(toks@, i as int) is Some,
            r matches Ok((o, j)) ==> options_end(toks@, i as int) == Some(j as int) && options_rel(
                toks@,
                i as int,
                o,
                j as int,
            ),
            r matches Err(e) ==> e == options_err(toks@, i as int),
    {
        if !in_range(toks, i, 2) {
            return Err(SyntaxError { pos: i, kind: SyntaxErrorKind::UnexpectedEnd });
        }
        if !toks[i].is_kw_enum() {
            return Err(SyntaxError { pos: i, kind: SyntaxErrorKind::ExpectedToken });
        }
        let name = match &toks[i + 1] {
            Token::Ident(nm) => crate::ast::copy_bytes(nm),
            _ => {
                return Err(SyntaxError { pos: i + 1, kind: SyntaxErrorKind::ExpectedIdent });
            },
        };
        if !toks[i + 2].is_lbrace() {
            return Err(SyntaxError { pos: i + 2, kind: SyntaxErrorKind::ExpectedToken });
        }
        let (discriminants, j) = match parse_discs(toks, i + 3) {
            Ok(p) => p,
            Err(e) => {
                return Err(e);
            },
        };
        Ok((FieldOptions { name, discriminants }, j))
    }
}

/// The bit field starting at token `i`: a permission, a name, a colon,
/// a range, and an optional `= enum ...` options body.
pub open spec fn bitfield_end(toks: Seq<Token>, i: int) -> Option<int> {
    if i + 2 < toks.len() && (match toks[i] {
        Token::Ident(s) => spec_perm_of(s@) is Some,
        _ => false,
    }) && toks[i + 1] is Ident && toks[i + 2] is Colon {
        match range_at(toks, i + 3) {
            Some((_, jr)) => {
                if jr < toks.len() && toks[jr] is Eq {
                    options_end(toks, jr + 1)
                } else {
                    Some(jr)
                }
            },
            None => None,
        }
    } else {
        None
    }
}

/// Whether the tokens from `i` up to `j` spell exactly the bit field
/// `f`.
pub open spec fn bitfield_rel(toks: Seq<Token>, i: int, f: BitField, j: int) -> bool {
    &&& i + 2 < toks.len()
    &&& match toks[i] {
        Token::Ident(s) => spec_perm_of(s@) == Some(f.permission),
        _ => false,
    }
    &&& match toks[i + 1] {
        Token::Ident(nm) => nm@ == f.name@,
        _ => false,
    }
    &&& toks[i + 2] is Colon
    &&& match range_at(toks, i + 3) {
        Some((rr, jr)) => rr == f.range && (if jr < toks.len() && toks[jr] is Eq {
            match f.options {
                Some(o) => options_rel(toks, jr + 1, o, j),
                None => false,
            }
        } else {
            f.options is None && j == jr
        }),
        None => false,
    }
}

/// A recognized range ends after its starting position and within the
/// token stream.
pub proof fn lemma_range_at_bounds(toks: Seq<Token>, i: int)
    ensures
        range_at(toks, i) matches Some((rr, j)) ==> i < j <= toks.len(),
{
}

/// A recognized bit field ends after its starting position and within
/// the token stream.
pub proof fn lemma_bitfield_end_bounds(toks: Seq<Token>, i: int)
    ensures
        bitfield_end(toks, i) matches Some(j) ==> i < j <= toks.len(),
{
    lemma_range_at_bounds(toks, i + 3);
    match range_at(toks, i + 3) {
        Some((rr, jr)) => {
            lemma_options_end_bounds(toks, jr + 1);
        },
        None => {},
    }
}

/// The error a failed bit-field parse reports: the error of the failing
/// piece — permission, name, colon, range or options — passed through
/// unchanged.
pub open spec fn bitfield_err(toks: Seq<Token>, i: int) -> SyntaxError {
    if !(i + 2 < toks.len()) {
        serr(i, SyntaxErrorKind::UnexpectedEnd)
    } else if !(match toks[i] {
        Token::Ident(s) => spec_perm_of(s@) is Some,
        _ => false,
    }) {
        perm_err(toks, i)
    } else if !(toks[i + 1] is Ident) {
        serr(i + 1, SyntaxErrorKind::ExpectedIdent)
    } else if !(toks[i + 2] is Colon) {
        serr(i + 2, SyntaxErrorKind::ExpectedToken)
    } else {
        match range_at(toks, i + 3) {
            None => range_err(toks, i + 3),
            Some((_, jr)) => {
                if jr < toks.len() && toks[jr] is Eq {
                    options_err(toks, jr + 1)
                } else {
                    serr(jr, SyntaxErrorKind::ExpectedToken)
                }
            },
        }
    }
}

impl BitField {
    /// Parses one bit field: `<permission> <name> : <range>`, optionally
    /// followed by `= enum <name> { ... }`.
    pub fn parse(toks: &Vec<Token>, i: usize) -> (r: Result<(BitField, usize), SyntaxError>)
        ensures
            r is Ok <==> bitfield_end(toks@, i as int) is Some,
            r matches Ok((f, j)) ==> bitfield_end(toks@, i as int) == Some(j as int)
                && bitfield_rel(toks@, i as int, f, j as int),
            r matches Err(e) ==> e == bitfield_err(toks@, i as int),
    {
        if !in_range(toks, i, 2) {
            return Err(SyntaxError { pos: i, kind: SyntaxErrorKind::UnexpectedEnd });
        }
        let (permission, _) = match Permission::parse(toks, i) {
            Ok(p) => p,
            Err(e) => {
                return Err(e);
            },
        };
        let name = match &toks[i + 1] {
            Token::Ident(nm) => crate::ast::copy_bytes(nm),
            _ => {
                return Err(SyntaxError { pos: i + 1, kind: SyntaxErrorKind::ExpectedIdent });
            },
        };
        if !toks[i + 2].is_colon() {
            return Err(SyntaxError { pos: i + 2, kind: SyntaxErrorKind::ExpectedToken });
        }
        let (range, jr) = match RegisterRange::parse(toks, i + 3) {
            Ok(p) => p,
            Err(e) => {
                return Err(e);
            },
        };
        if jr < toks.len() && toks[jr].is_eq_tok() {
            let (o, j) = match FieldOptions::parse(toks, jr + 1) {
                Ok(p) => p,
                Err(e) => {
                    return Err(e);
                },
            };
            Ok((BitField { permission, name, range, options: Some(o) }, j))
        } else {
            Ok((BitField { permission, name, range, options: None }, jr))
        }
    }
}

/// The position after an attribute body that opened with `#[`: the
/// matching close bracket at nesting `depth`, or `None` when the
/// brackets never balance.
pub open spec fn attr_body_end(toks: Seq<Token>, i: int, depth: int) -> Option<int>
    decreases toks.len() - i,
{
    if i >= toks.len() {
        None
    } else if toks[i] is RBracket {
        if depth == 0 {
            Some(i + 1)
        } else {
            attr_body_end(toks, i + 1, depth - 1)
        }
    } else if toks[i] is LBracket {
        attr_body_end(toks, i + 1, depth + 1)
    } else {
        attr_body_end(toks, i + 1, depth)
    }
}

/// A balanced attribute body ends after its start and within the
/// stream.
pub proof fn lemma_attr_body_end_bounds(toks: Seq<Token>, i: int, depth: int)
    ensures
        attr_body_end(toks, i, depth) matches Some(j) ==> i < j <= toks.len(),
    decreases toks.len() - i,
{
    if i < toks.len() {
        if toks[i] is RBracket {
            lemma_attr_body_end_bounds(toks, i + 1, depth - 1);
        } else if toks[i] is LBracket {
            lemma_attr_body_end_bounds(toks, i + 1, depth + 1);
        } else {
            lemma_attr_body_end_bounds(toks, i + 1, depth);
        }
    }
}

/// The position after the attribute list starting at `i`. Attributes are
/// `#[` followed by any tokens with balanced square brackets and the
/// matching `]`, and are discarded: no later stage of the pipeline
/// consumes them. An unbalanced attribute consumes nothing and the
/// parser fails on its `#` instead.
pub open spec fn attrs_end(toks: Seq<Token>, i: int) -> int
    decreases toks.len() - i,
{
    if i + 1 < toks.len() && toks[i] is Pound && toks[i + 1] is LBracket {
        match attr_body_end(toks, i + 2, 0) {
            Some(j) => {
                proof {
                    lemma_attr_body_end_bounds(toks, i + 2, 0);
                }
                attrs_end(toks, j)
            },
            None => i,
        }
    } else {
        i
    }
}

/// The attribute list never moves backwards and stays within the stream.
pub proof fn lemma_attrs_end_bounds(toks: Seq<Token>, i: int)
    ensures
        i <= attrs_end(toks, i),
        i <= toks.len() ==> attrs_end(toks, i) <= toks.len(),
    decreases toks.len() - i,
{
    if i + 1 < toks.len() && toks[i] is Pound && toks[i + 1] is LBracket {
        match attr_body_end(toks, i + 2, 0) {
            Some(j) => {
                lemma_attr_body_end_bounds(toks, i + 2, 0);
                lemma_attrs_end_bounds(toks, j);
            },
            None => {},
        }
    }
}

/// Skips one attribute body up to and past its matching close bracket.
fn skip_attr_body(toks: &Vec<Token>, i: usize, depth: usize) -> (r: Option<usize>)
    requires
        i <= toks.len(),
        depth <= i,
    ensures
        r matches Some(j) ==> attr_body_end(toks@, i as int, depth as int) == Some(j as int) && i
            < j <= toks.len(),
        r is Some <==> attr_body_end(toks@, i as int, depth as int) is Some,
    decreases toks.len() - i,
{
    proof {
        lemma_attr_body_end_bounds(toks@, i as int, depth as int);
    }
    if i >= toks.len() {
        None
    } else if toks[i].is_rbracket() {
        if depth == 0 {
            Some(i + 1)
        } else {
            skip_attr_body(toks, i + 1, depth - 1)
        }
    } else if toks[i].is_lbracket() {
        skip_attr_body(toks, i + 1, depth + 1)
    } else {
        skip_attr_body(toks, i + 1, depth)
    }
}

/// Skips the attribute list starting at `i`.
fn skip_attrs(toks: &Vec<Token>, i: usize) -> (j: usize)
    requires
        i <= toks.len(),
    ensures
        j == attrs_end(toks@, i as int),
        i <= j <= toks.len(),
    decreases toks.len() - i,
{
    if in_range(toks, i, 1) && toks[i].is_pound() && toks[i + 1].is_lbracket() {
        match skip_attr_body(toks, i + 2, 0) {
            Some(j) => skip_attrs(toks, j),
            None => i,
        }
    } else {
        i
    }
}

/// The position after the optional visibility at `i`.
pub open spec fn vis_end(toks: Seq<Token>, i: int) -> int {
    if i < toks.len() && toks[i] is KwPub {
        i + 1
    } else {
        i
    }
}

/// Reads the optional `pub` visibility at `i`.
fn parse_vis(toks: &Vec<Token>, i: usize) -> (r: (bool, usize))
    requires
        i <= toks.len(),
    ensures
        r.1 == vis_end(toks@, i as int),
        r.0 == (r.1 != i),
        i <= r.1 <= toks.len(),
{
    if i < toks.len() && toks[i].is_kw_pub() {
        (true, i + 1)
    } else {
        (false, i)
    }
}

/// The bit-field list starting at token `i` (just after the register's
/// opening brace) together with its closing brace, and the position
/// after it. Fields are separated by commas, with an optional trailing
/// comma.
pub open spec fn fields_end(toks: Seq<Token>, i: int) -> Option<int>
    decreases toks.len() - i,
{
    if i < toks.len() && toks[i] is RBrace {
        Some(i + 1)
    } else {
        match bitfield_end(toks, i) {
            Some(jf) => {
                if jf < toks.len() && toks[jf] is Comma {
                    proof {
                        lemma_bitfield_end_bounds(toks, i);
                    }
                    fields_end(toks, jf + 1)
                } else if jf < toks.len() && toks[jf] is RBrace {
                    Some(jf + 1)
                } else {
                    None
                }
            },
            None => None,
        }
    }
}

/// Whether the tokens from `i` up to `j` spell exactly the bit-field
/// list `fs` followed by its closing brace.
pub open spec fn fields_rel(toks: Seq<Token>, i: int, fs: Seq<BitField>, j: int) -> bool
    decreases fs.len(),
{
    if fs.len() == 0 {
        i < toks.len() && toks[i] is RBrace && j == i + 1
    } else {
        match bitfield_end(toks, i) {
            Some(jf) => bitfield_rel(toks, i, fs[0], jf) && (if jf < toks.len() && toks[jf]
                is Comma {
                fields_rel(toks, jf + 1, fs.drop_first(), j)
            } else {
                jf < toks.len() && toks[jf] is RBrace && fs.len() == 1 && j == jf + 1
            }),
            None => false,
        }
    }
}

/// A recognized bit-field list ends after its starting position and
/// within the token stream.
pub proof fn lemma_fields_end_bounds(toks: Seq<Token>, i: int)
    ensures
        fields_end(toks, i) matches Some(j) ==> i < j <= toks.len(),
    decreases toks.len() - i,
{
    if i < toks.len() && toks[i] is RBrace {
    } else {
        match bitfield_end(toks, i) {
            Some(jf) => {
                lemma_bitfield_end_bounds(toks, i);
                if jf < toks.len() && toks[jf] is Comma {
                    lemma_fields_end_bounds(toks, jf + 1);
                }
            },
            None => {},
        }
    }
}

/// The error a failed bit-field-list parse reports: the first failing
/// field's own error, or the missing separator after a field.
pub open spec fn fields_err(toks: Seq<Token>, i: int) -> SyntaxError
    decreases toks.len() - i,
{
    if i < toks.len() && toks[i] is RBrace {
        serr(i, SyntaxErrorKind::UnexpectedEnd)
    } else {
        match bitfield_end(toks, i) {
            None => bitfield_err(toks, i),
            Some(jf) => {
                if jf < toks.len() && toks[jf] is Comma {
                    proof {
                        lemma_bitfield_end_bounds(toks, i);
                    }
                    fields_err(toks, jf + 1)
                } else {
                    serr(jf, SyntaxErrorKind::ExpectedToken)
                }
            },
        }
    }
}

/// Parses a bit-field list up to and including its closing brace.
fn parse_fields(toks: &Vec<Token>, i: usize) -> (r: Result<(Vec<BitField>, usize), SyntaxError>)
    ensures
        r is Ok <==> fields_end(toks@, i as int) is Some,
        r matches Ok((fs, j)) ==> fields_end(toks@, i as int) == Some(j as int) && fields_rel(
            toks@,
            i as int,
            fs@,
            j as int,
        ),
        r matches Err(e) ==> e == fields_err(toks@, i as int),
    decreases toks.len() - i,
{
    if i < toks.len() && toks[i].is_rbrace() {
        let fs: Vec<BitField> = Vec::new();
        return Ok((fs, i + 1));
    }
    let (f, jf) = match BitField::parse(toks, i) {
        Ok(p) => p,
        Err(e) => {
            return Err(e);
        },
    };
    proof {
        lemma_bitfield_end_bounds(toks@, i as int);
    }
    if jf < toks.len() && toks[jf].is_comma() {
        let (rest, j) = match parse_fields(toks, jf + 1) {
            Ok(p) => p,
            Err(e) => {
                return Err(e);
            },
        };
        let mut fs = rest;
        fs.insert(0, f);
        assert(fs@.drop_first() =~= rest@);
        return Ok((fs, j));
    }
    if jf < toks.len() && toks[jf].is_rbrace() {
        let mut fs: Vec<BitField> = Vec::new();
        fs.push(f);
        return Ok((fs, jf + 1));
    }
    Err(SyntaxError { pos: jf, kind: SyntaxErrorKind::ExpectedToken })
}

/// The register definition starting at token `i`: visibility, a name,
/// `as`, a backing type, and a braced bit-field list.
pub open spec fn register_end(toks: Seq<Token>, i: int) -> Option<int> {
    let v = vis_end(toks, i);
    if v + 3 < toks.len() && toks[v] is Ident && toks[v + 1] is KwAs && (match toks[v + 2] {
        Token::Ident(s) => spec_int_type_of(s@) is Some,
        _ => false,
    }) && toks[v + 3] is LBrace {
        fields_end(toks, v + 4)
    } else {
        None
    }
}

/// Whether the tokens from `i` up to `j` spell exactly the register
/// definition `r`.
pub open spec fn register_rel(toks: Seq<Token>, i: int, r: RegisterDef, j: int) -> bool {
    let v = vis_end(toks, i);
    &&& r.vis_pub == (v != i)
    &&& v + 3 < toks.len()
    &&& match toks[v] {
        Token::Ident(nm) => nm@ == r.name@,
        _ => false,
    }
    &&& toks[v + 1] is KwAs
    &&& match toks[v + 2] {
        Token::Ident(s) => spec_int_type_of(s@) == Some(r.ty),
        _ => false,
    }
    &&& toks[v + 3] is LBrace
    &&& fields_rel(toks, v + 4, r.fields@, j)
}

/// A recognized register definition ends after its starting position and
/// within the token stream.
pub proof fn lemma_register_end_bounds(toks: Seq<Token>, i: int)
    ensures
        register_end(toks, i) matches Some(j) ==> i < j <= toks.len(),
{
    lemma_fields_end_bounds(toks, vis_end(toks, i) + 4);
}

/// The error a failed register-definition parse reports: a broken
/// `<vis> <name> as <type> {` head, or the field list's own error.
pub open spec fn register_def_err(toks: Seq<Token>, i: int) -> SyntaxError {
    let v = vis_end(toks, i);
    if !(v + 3 < toks.len()) {
        serr(v, SyntaxErrorKind::UnexpectedEnd)
    } else if !(toks[v] is Ident) {
        serr(v, SyntaxErrorKind::ExpectedIdent)
    } else if !(toks[v + 1] is KwAs) {
        serr(v + 1, SyntaxErrorKind::ExpectedToken)
    } else if !(match toks[v + 2] {
        Token::Ident(s) => spec_int_type_of(s@) is Some,
        _ => false,
    }) {
        int_type_err(toks, v + 2)
    } else if !(toks[v + 3] is LBrace) {
        serr(v + 3, SyntaxErrorKind::ExpectedToken)
    } else {
        fields_err(toks, v + 4)
    }
}

impl RegisterDef {
    /// Parses one register definition: `<vis> <name> as <type> {
    /// <field>, ... }`.
    pub fn parse(toks: &Vec<Token>, i: usize) -> (r: Result<(RegisterDef, usize), SyntaxError>)
        requires
            i <= toks.len(),
        ensures
            r is Ok <==> register_end(toks@, i as int) is Some,
            r matches Ok((d, j)) ==> register_end(toks@, i as int) == Some(j as int)
                && register_rel(toks@, i as int, d, j as int),
            r matches Err(e) ==> e == register_def_err(toks@, i as int),
    {
        let (vis_pub, v) = parse_vis(toks, i);
        if !in_range(toks, v, 3) {
            return Err(SyntaxError { pos: v, kind: SyntaxErrorKind::UnexpectedEnd });
        }
        let name = match &toks[v] {
            Token::Ident(nm) => crate::ast::copy_bytes(nm),
            _ => {
                return Err(SyntaxError { pos: v, kind: SyntaxErrorKind::ExpectedIdent });
            },
        };
        if !toks[v + 1].is_kw_as() {
            return Err(SyntaxError { pos: v + 1, kind: SyntaxErrorKind::ExpectedToken });
        }
        let (ty, _) = match parse_int_type(toks, v + 2) {
            Ok(p) => p,
            Err(e) => {
                return Err(e);
            },
        };
        if !toks[v + 3].is_lbrace() {
            return Err(SyntaxError { pos: v + 3, kind: SyntaxErrorKind::ExpectedToken });
        }
        let (fields, j) = match parse_fields(toks, v + 4) {
            Ok(p) => p,
            Err(e) => {
                return Err(e);
            },
        };
        Ok((RegisterDef { vis_pub, name, ty, fields }, j))
    }
}

/// The register layout starting at token `i`: attributes, an address
/// literal, `=>`, and a register definition.
pub open spec fn layout_end(toks: Seq<Token>, i: int) -> Option<int> {
    let a = attrs_end(toks, i);
    if a + 1 < toks.len() && toks[a] is Int && toks[a + 1] is FatArrow {
        register_end(toks, a + 2)
    } else {
        None
    }
}

/// Whether the tokens from `i` up to `j` spell exactly the register
/// layout `l`.
pub open spec fn layout_rel(toks: Seq<Token>, i: int, l: RegisterLayout, j: int) -> bool {
    let a = attrs_end(toks, i);
    &&& a + 1 < toks.len()
    &&& match toks[a] {
        Token::Int(n) => n == l.addr,
        _ => false,
    }
    &&& toks[a + 1] is FatArrow
    &&& register_rel(toks, a + 2, l.reg, j)
}

/// A recognized register layout ends after its starting position and
/// within the token stream.
pub proof fn lemma_layout_end_bounds(toks: Seq<Token>, i: int)
    ensures
        layout_end(toks, i) matches Some(j) ==> i < j <= toks.len(),
{
    lemma_attrs_end_bounds(toks, i);
    lemma_register_end_bounds(toks, attrs_end(toks, i) + 2);
}

/// The error a failed register-layout parse reports: a missing address
/// literal or `=>` at its own position, or the register definition's
/// error passed through unchanged.
pub open spec fn reg_layout_err(toks: Seq<Token>, i: int) -> SyntaxError {
    let a = attrs_end(toks, i);
    if !(a + 1 < toks.len()) {
        serr(a, SyntaxErrorKind::UnexpectedEnd)
    } else if !(toks[a] is Int) {
        serr(a, SyntaxErrorKind::ExpectedInt)
    } else if !(toks[a + 1] is FatArrow) {
        serr(a + 1, SyntaxErrorKind::ExpectedToken)
    } else {
        register_def_err(toks, a + 2)
    }
}

impl RegisterLayout {
    /// Parses one register layout: `<attrs> <address> => <register>`.
    pub fn parse(toks: &Vec<Token>, i: usize) -> (r: Result<(RegisterLayout, usize), SyntaxError>)
        requires
            i <= toks.len(),
        ensures
            r is Ok <==> layout_end(toks@, i as int) is Some,
            r matches Ok((l, j)) ==> layout_end(toks@, i as int) == Some(j as int) && layout_rel(
                toks@,
                i as int,
                l,
                j as int,
            ),
            r matches Err(e) ==> e == reg_layout_err(toks@, i as int),
    {
        let a = skip_attrs(toks, i);
        if !in_range(toks, a, 1) {
            return Err(SyntaxError { pos: a, kind: SyntaxErrorKind::UnexpectedEnd });
        }
        let addr = match &toks[a] {
            Token::Int(n) => *n,
            _ => {
                return Err(SyntaxError { pos: a, kind: SyntaxErrorKind::ExpectedInt });
            },
        };
        if !toks[a + 1].is_fat_arrow() {
            return Err(SyntaxError { pos: a + 1, kind: SyntaxErrorKind::ExpectedToken });
        }
        let (reg, j) = match RegisterDef::parse(toks, a + 2) {
            Ok(p) => p,
            Err(e) => {
                return Err(e);
            },
        };
        Ok((RegisterLayout { addr, reg }, j))
    }
}

/// The register-layout list starting at token `i` (just after the
/// block's opening brace) together with its closing brace, and the
/// position after it.
pub open spec fn layouts_end(toks: Seq<Token>, i: int) -> Option<int>
    decreases toks.len() - i,
{
    if i < toks.len() && toks[i] is RBrace {
        Some(i + 1)
    } else {
        match layout_end(toks, i) {
            Some(jl) => {
                if jl < toks.len() && toks[jl] is Comma {
                    proof {
                        lemma_layout_end_bounds(toks, i);
                    }
                    layouts_end(toks, jl + 1)
                } else if jl < toks.len() && toks[jl] is RBrace {
                    Some(jl + 1)
                } else {
                    None
                }
            },
            None => None,
        }
    }
}

/// Whether the tokens from `i` up to `j` spell exactly the layout list
/// `ls` followed by its closing brace.
pub open spec fn layouts_rel(toks: Seq<Token>, i: int, ls: Seq<RegisterLayout>, j: int) -> bool
    decreases ls.len(),
{
    if ls.len() == 0 {
        i < toks.len() && toks[i] is RBrace && j == i + 1
    } else {
        match layout_end(toks, i) {
            Some(jl) => layout_rel(toks, i, ls[0], jl) && (if jl < toks.len() && toks[jl]
                is Comma {
                layouts_rel(toks, jl + 1, ls.drop_first(), j)
            } else {
                jl < toks.len() && toks[jl] is RBrace && ls.len() == 1 && j == jl + 1
            }),
            None => false,
        }
    }
}

/// A recognized layout list ends after its starting position and within
/// the token stream.
pub proof fn lemma_layouts_end_bounds(toks: Seq<Token>, i: int)
    ensures
        layouts_end(toks, i) matches Some(j) ==> i < j <= toks.len(),
    decreases toks.len() - i,
{
    if i < toks.len() && toks[i] is RBrace {
    } else {
        match layout_end(toks, i) {
            Some(jl) => {
                lemma_layout_end_bounds(toks, i);
                if jl < toks.len() && toks[jl] is Comma {
                    lemma_layouts_end_bounds(toks, jl + 1);
                }
            },
            None => {},
        }
    }
}

/// The error a failed layout-list parse reports: the first failing
/// layout's own error, or the missing separator after a layout.
pub open spec fn layouts_err(toks: Seq<Token>, i: int) -> SyntaxError
    decreases toks.len() - i,
{
    if i < toks.len() && toks[i] is RBrace {
        serr(i, SyntaxErrorKind::UnexpectedEnd)
    } else {
        match layout_end(toks, i) {
            None => reg_layout_err(toks, i),
            Some(jl) => {
                if jl < toks.len() && toks[jl] is Comma {
                    proof {
                        lemma_layout_end_bounds(toks, i);
                    }
                    layouts_err(toks, jl + 1)
                } else {
                    serr(jl, SyntaxErrorKind::ExpectedToken)
                }
            },
        }
    }
}

/// Parses a register-layout list up to and including its closing brace.
fn parse_layouts(toks: &Vec<Token>, i: usize) -> (r: Result<
    (Vec<RegisterLayout>, usize),
    SyntaxError,
>)
    requires
        i <= toks.len(),
    ensures
        r is Ok <==> layouts_end(toks@, i as int) is Some,
        r matches Ok((ls, j)) ==> layouts_end(toks@, i as int) == Some(j as int) && layouts_rel(
            toks@,
            i as int,
            ls@,
            j as int,
        ),
        r matches Err(e) ==> e == layouts_err(toks@, i as int),
    decreases toks.len() - i,
{
    if i < toks.len() && toks[i].is_rbrace() {
        let ls: Vec<RegisterLayout> = Vec::new();
        return Ok((ls, i + 1));
    }
    let (l, jl) = match RegisterLayout::parse(toks, i) {
        Ok(p) => p,
        Err(e) => {
            return Err(e);
        },
    };
    proof {
        lemma_layout_end_bounds(toks@, i as int);
    }
    if jl < toks.len() && toks[jl].is_comma() {
        let (rest, j) = match parse_layouts(toks, jl + 1) {
            Ok(p) => p,
            Err(e) => {
                return Err(e);
            },
        };
        let mut ls = rest;
        ls.insert(0, l);
        assert(ls@.drop_first() =~= rest@);
        return Ok((ls, j));
    }
    if jl < toks.len() && toks[jl].is_rbrace() {
        let mut ls: Vec<RegisterLayout> = Vec::new();
        ls.push(l);
        return Ok((ls, jl + 1));
    }
    Err(SyntaxError { pos: jl, kind: SyntaxErrorKind::ExpectedToken })
}

/// The register block starting at token `i`: attributes, visibility, a
/// name, and a braced layout list.
pub open spec fn block_end(toks: Seq<Token>, i: int) -> Option<int> {
    let a = attrs_end(toks, i);
    let v = vis_end(toks, a);
    if v + 1 < toks.len() && toks[v] is Ident && toks[v + 1] is LBrace {
        layouts_end(toks, v + 2)
    } else {
        None
    }
}

/// Whether the tokens from `i` up to `j` spell exactly the register
/// block `b`.
pub open spec fn block_rel(toks: Seq<Token>, i: int, b: RegisterBlock, j: int) -> bool {
    let a = attrs_end(toks, i);
    let v = vis_end(toks, a);
    &&& b.vis_pub == (v != a)
    &&& v + 1 < toks.len()
    &&& match toks[v] {
        Token::Ident(nm) => nm@ == b.name@,
        _ => false,
    }
    &&& toks[v + 1] is LBrace
    &&& layouts_rel(toks, v + 2, b.registers@, j)
}

/// The error a failed block parse reports: a broken `<vis> <name> {`
/// head, or the layout list's own error passed through unchanged.
pub open spec fn block_err(toks: Seq<Token>, i: int) -> SyntaxError {
    let a = attrs_end(toks, i);
    let v = vis_end(toks, a);
    if !(v + 1 < toks.len()) {
        serr(v, SyntaxErrorKind::UnexpectedEnd)
    } else if !(toks[v] is Ident) {
        serr(v, SyntaxErrorKind::ExpectedIdent)
    } else if !(toks[v + 1] is LBrace) {
        serr(v + 1, SyntaxErrorKind::ExpectedToken)
    } else {
        layouts_err(toks, v + 2)
    }
}

impl RegisterBlock {
    /// Parses one register block: `<attrs> <vis> <name> { <layout>, ...
    /// }`.
    pub fn parse(toks: &Vec<Token>, i: usize) -> (r: Result<(RegisterBlock, usize), SyntaxError>)
        requires
            i <= toks.len(),
        ensures
            r is Ok <==> block_end(toks@, i as int) is Some,
            r matches Ok((b, j)) ==> block_end(toks@, i as int) == Some(j as int) && block_rel(
                toks@,
                i as int,
                b,
                j as int,
            ),
            r matches Err(e) ==> e == block_err(toks@, i as int),
    {
        let a = skip_attrs(toks, i);
        let (vis_pub, v) = parse_vis(toks, a);
        if !in_range(toks, v, 1) {
            return Err(SyntaxError { pos: v, kind: SyntaxErrorKind::UnexpectedEnd });
        }
        let name = match &toks[v] {
            Token::Ident(nm) => crate::ast::copy_bytes(nm),
            _ => {
                return Err(SyntaxError { pos: v, kind: SyntaxErrorKind::ExpectedIdent });
            },
        };
        if !toks[v + 1].is_lbrace() {
            return Err(SyntaxError { pos: v + 1, kind: SyntaxErrorKind::ExpectedToken });
        }
        let (registers, j) = match parse_layouts(toks, v + 2) {
            Ok(p) => p,
            Err(e) => {
                return Err(e);
            },
        };
        Ok((RegisterBlock { vis_pub, name, registers }, j))
    }
}

/// The position after the `::`-separated tail of a path whose first
/// segment was already read.
pub open spec fn path_more(toks: Seq<Token>, i: int) -> int
    decreases toks.len() - i,
{
    if i + 1 < toks.len() && toks[i] is PathSep && toks[i + 1] is Ident {
        path_more(toks, i + 2)
    } else {
        i
    }
}

/// The path starting at token `i`: one identifier segment, then any
/// number of `::`-separated segments.
pub open spec fn path_end(toks: Seq<Token>, i: int) -> Option<int> {
    if i < toks.len() && toks[i] is Ident {
        Some(path_more(toks, i + 1))
    } else {
        None
    }
}

/// Whether the tokens from `i` up to `j` spell exactly the path
/// segments `segs`, reading as many segments as the stream offers.
pub open spec fn path_rel(toks: Seq<Token>, i: int, segs: Seq<Vec<u8>>, j: int) -> bool
    decreases segs.len(),
{
    if segs.len() == 0 {
        false
    } else {
        &&& i < toks.len()
        &&& match toks[i] {
            Token::Ident(nm) => nm@ == segs[0]@,
            _ => false,
        }
        &&& if segs.len() == 1 {
            j == i + 1 && !(i + 2 < toks.len() && toks[i + 1] is PathSep && toks[i + 2] is Ident)
        } else {
            i + 2 < toks.len() && toks[i + 1] is PathSep && path_rel(
                toks,
                i + 2,
                segs.drop_first(),
                j,
            )
        }
    }
}

/// A recognized path never moves backwards and stays within the stream.
pub proof fn lemma_path_more_bounds(toks: Seq<Token>, i: int)
    ensures
        i <= path_more(toks, i),
        i <= toks.len() ==> path_more(toks, i) <= toks.len(),
    decreases toks.len() - i,
{
    if i + 1 < toks.len() && toks[i] is PathSep && toks[i + 1] is Ident {
        lemma_path_more_bounds(toks, i + 2);
    }
}

/// The error a failed path parse reports: a path needs at least one
/// identifier segment.
pub open spec fn path_err(toks: Seq<Token>, i: int) -> SyntaxError {
    if i >= toks.len() {
        serr(i, SyntaxErrorKind::UnexpectedEnd)
    } else {
        serr(i, SyntaxErrorKind::ExpectedIdent)
    }
}

/// Parses a path: `<ident>` or `<ident>::<ident>::...`.
fn parse_path(toks: &Vec<Token>, i: usize) -> (r: Result<(Vec<Vec<u8>>, usize), SyntaxError>)
    requires
        i <= toks.len(),
    ensures
        r is Ok <==> path_end(toks@, i as int) is Some,
        r matches Ok((segs, j)) ==> path_end(toks@, i as int) == Some(j as int) && path_rel(
            toks@,
            i as int,
            segs@,
            j as int,
        ),
        r matches Err(e) ==> e == path_err(toks@, i as int),
    decreases toks.len() - i,
{
    if !(i < toks.len()) {
        return Err(SyntaxError { pos: i, kind: SyntaxErrorKind::UnexpectedEnd });
    }
    let seg = match &toks[i] {
        Token::Ident(nm) => crate::ast::copy_bytes(nm),
        _ => {
            return Err(SyntaxError { pos: i, kind: SyntaxErrorKind::ExpectedIdent });
        },
    };
    if in_range(toks, i, 2) && toks[i + 1].is_path_sep() && (match &toks[i + 2] {
        Token::Ident(_) => true,
        _ => false,
    }) {
        let (rest, j) = match parse_path(toks, i + 2) {
            Ok(p) => p,
            Err(e) => {
                return Err(e);
            },
        };
        assert(path_more(toks@, i + 1) == path_more(toks@, i + 2 + 1));
        let mut segs = rest;
        segs.insert(0, seg);
        assert(segs@.drop_first() =~= rest@);
        return Ok((segs, j));
    }
    let mut segs: Vec<Vec<u8>> = Vec::new();
    segs.push(seg);
    Ok((segs, i + 1))
}

/// The whole compilation unit starting at token `i`: an optional
/// override directive `#![crate = <path>]` selecting an alternate
/// runtime-layer namespace, then a register block.
pub open spec fn input_end(toks: Seq<Token>, i: int) -> Option<int> {
    if i + 1 < toks.len() && toks[i] is Pound && toks[i + 1] is Bang {
        if i + 4 < toks.len() && toks[i + 2] is LBracket && toks[i + 3] is KwCrate && toks[i + 4]
            is Eq {
            match path_end(toks, i + 5) {
                Some(p) => {
                    if p < toks.len() && toks[p] is RBracket {
                        block_end(toks, p + 1)
                    } else {
                        None
                    }
                },
                None => None,
            }
        } else {
            None
        }
    } else {
        block_end(toks, i)
    }
}

/// Whether the tokens from `i` up to `j` spell exactly the compilation
/// unit `inp`.
pub open spec fn input_rel(toks: Seq<Token>, i: int, inp: Input, j: int) -> bool {
    if i + 1 < toks.len() && toks[i] is Pound && toks[i + 1] is Bang {
        &&& i + 4 < toks.len()
        &&& toks[i + 2] is LBracket
        &&& toks[i + 3] is KwCrate
        &&& toks[i + 4] is Eq
        &&& match inp.krate {
            Some(segs) => match path_end(toks, i + 5) {
                Some(p) => path_rel(toks, i + 5, segs@, p) && p < toks.len() && toks[p] is RBracket
                    && block_rel(toks, p + 1, inp.item, j),
                None => false,
            },
            None => false,
        }
    } else {
        inp.krate is None && block_rel(toks, i, inp.item, j)
    }
}

/// The error a failed unit parse reports: a malformed override
/// directive at its own position, or the block's error passed through
/// unchanged.
pub open spec fn input_err(toks: Seq<Token>, i: int) -> SyntaxError {
    if i + 1 < toks.len() && toks[i] is Pound && toks[i + 1] is Bang {
        if !(i + 4 < toks.len() && toks[i + 2] is LBracket && toks[i + 3] is KwCrate && toks[i + 4]
            is Eq) {
            serr(i, SyntaxErrorKind::ExpectedToken)
        } else {
            match path_end(toks, i + 5) {
                None => path_err(toks, i + 5),
                Some(p) => {
                    if !(p < toks.len() && toks[p] is RBracket) {
                        serr(p, SyntaxErrorKind::ExpectedToken)
                    } else {
                        block_err(toks, p + 1)
                    }
                },
            }
        }
    } else {
        block_err(toks, i)
    }
}

impl Input {
    /// Parses a whole compilation unit: an optional `#![crate = <path>]`
    /// override directive, then a register block.
    pub fn parse(toks: &Vec<Token>, i: usize) -> (r: Result<(Input, usize), SyntaxError>)
        requires
            i <= toks.len(),
        ensures
            r is Ok <==> input_end(toks@, i as int) is Some,
            r matches Ok((inp, j)) ==> input_end(toks@, i as int) == Some(j as int) && input_rel(
                toks@,
                i as int,
                inp,
                j as int,
            ),
            r matches Err(e) ==> e == input_err(toks@, i as int),
    {
        if in_range(toks, i, 1) && toks[i].is_pound() && toks[i + 1].is_bang() {
            if !(in_range(toks, i, 4) && toks[i + 2].is_lbracket() && toks[i + 3].is_kw_crate()
                && toks[i + 4].is_eq_tok()) {
                return Err(SyntaxError { pos: i, kind: SyntaxErrorKind::ExpectedToken });
            }
            let (segs, p) = match parse_path(toks, i + 5) {
                Ok(q) => q,
                Err(e) => {
                    return Err(e);
                },
            };
            proof {
                lemma_path_more_bounds(toks@, i + 5 + 1);
            }
            if !(p < toks.len() && toks[p].is_rbracket()) {
                return Err(SyntaxError { pos: p, kind: SyntaxErrorKind::ExpectedToken });
            }
            let (item, j) = match RegisterBlock::parse(toks, p + 1) {
                Ok(q) => q,
                Err(e) => {
                    return Err(e);
                },
            };
            Ok((Input { krate: Some(segs), item }, j))
        } else {
            let (item, j) = match RegisterBlock::parse(toks, i) {
                Ok(q) => q,
                Err(e) => {
                    return Err(e);
                },
            };
            Ok((Input { krate: None, item }, j))
        }
    }
}

} // verus!
