//! The error taxonomy of the compiler.
//!
//! Three classes exist: syntax errors from the lexer and parser, semantic
//! errors from range resolution, and layout errors from validation. Every
//! error carries enough position information to point back at the source,
//! and any error aborts the compilation unit: no partial artifact is ever
//! produced.

use vstd::prelude::*;

verus! {

/// What a syntax error complains about.
#[derive(Clone, Copy, Debug, PartialEq, Eq)]
pub enum SyntaxErrorKind {
    /// A byte that starts no token.
    UnexpectedByte,
    /// An integer literal that does not fit the address/bit-position type.
    IntegerOverflow,
    /// An identifier was required at this position.
    ExpectedIdent,
    /// An integer literal was required at this position.
    ExpectedInt,
    /// A particular punctuation or keyword token was required.
    ExpectedToken,
    /// The input ended while more tokens were required.
    UnexpectedEnd,
    /// Input remained after the register block was parsed.
    TrailingTokens,
    /// A permission token other than `r`, `w` or `rw`.
    UnknownPermission,
    /// A field width that is neither an integer literal nor a range.
    ExpectedRangeOrInt,
    /// A register backing type other than `u8`/`u16`/`u32`/`u64`.
    UnknownIntType,
}

/// A malformed token stream; carries the offending position and a
/// specific expectation message.
///
/// For errors raised by the lexer, `pos` is a byte offset into the source;
/// for errors raised by the parser it is a token index.
#[derive(Clone, Copy, Debug, PartialEq, Eq)]
pub struct SyntaxError {
    pub pos: usize,
    pub kind: SyntaxErrorKind,
}

/// What a semantic error complains about.
#[derive(Clone, Copy, Debug, PartialEq, Eq)]
pub enum SemanticErrorKind {
    /// The normalized exclusive end of a range does not reach its start.
    EndBeforeStart,
    /// An inclusive bound or single-bit literal whose normalized end
    /// overflows the bit-position type.
    BoundTooLarge,
}

/// A range that is syntactically valid but semantically unsound.
///
/// `register` is the index of the owning register inside the block,
/// `field` the index of the offending field inside that register.
#[derive(Clone, Copy, Debug, PartialEq, Eq)]
pub struct SemanticError {
    pub register: usize,
    pub field: usize,
    pub kind: SemanticErrorKind,
}

/// What a layout error complains about.
#[derive(Clone, Copy, Debug, PartialEq, Eq)]
pub enum LayoutErrorKind {
    /// A field's bit range reaches beyond the register's declared width.
    FieldOutOfRange,
    /// Two fields of one register occupy a common bit.
    OverlappingFields,
    /// Two fields of one register share a name.
    DuplicateFieldName,
    /// Two discriminants of one field's options share a name.
    DuplicateDiscriminant,
    /// Two registers of one block share a name.
    DuplicateRegisterName,
}

/// A structurally unsound resolved model.
///
/// `register` is the index of the offending register inside the block;
/// `field` the index of the offending field inside that register, where
/// one exists.
#[derive(Clone, Copy, Debug, PartialEq, Eq)]
pub struct LayoutError {
    pub register: usize,
    pub field: usize,
    pub kind: LayoutErrorKind,
}

/// Any error that aborts a compilation unit.
#[derive(Clone, Copy, Debug, PartialEq, Eq)]
pub enum CompileError {
    Syntax(SyntaxError),
    Semantic(SemanticError),
    Layout(LayoutError),
}

impl SyntaxErrorKind {
    /// The human-readable expectation message for this kind.
    pub fn message(self) -> (r: &'static str)
        ensures
            self is UnexpectedByte ==> r@ == "unexpected character in input"@,
            self is IntegerOverflow ==> r@ == "integer literal is too large"@,
            self is ExpectedIdent ==> r@ == "expected an identifier"@,
            self is ExpectedInt ==> r@ == "expected an integer literal"@,
            self is ExpectedToken ==> r@ == "expected a different token"@,
            self is UnexpectedEnd ==> r@ == "unexpected end of input"@,
            self is TrailingTokens ==> r@ == "unexpected tokens after register block"@,
            self is UnknownPermission ==> r@
                == "unrecognized permissions - r/w/rw are supported values"@,
            self is ExpectedRangeOrInt ==> r@
                == "expected a numeric literal or a range expression denoting the field width"@,
            self is UnknownIntType ==> r@ == "expected one of u8/u16/u32/u64 as the register type"@,
    {
        match self {
            SyntaxErrorKind::UnexpectedByte => "unexpected character in input",
            SyntaxErrorKind::IntegerOverflow => "integer literal is too large",
            SyntaxErrorKind::ExpectedIdent => "expected an identifier",
            SyntaxErrorKind::ExpectedInt => "expected an integer literal",
            SyntaxErrorKind::ExpectedToken => "expected a different token",
            SyntaxErrorKind::UnexpectedEnd => "unexpected end of input",
            SyntaxErrorKind::TrailingTokens => "unexpected tokens after register block",
            SyntaxErrorKind::UnknownPermission => {
                "unrecognized permissions - r/w/rw are supported values"
            },
            SyntaxErrorKind::ExpectedRangeOrInt => {
                "expected a numeric literal or a range expression denoting the field width"
            },
            SyntaxErrorKind::UnknownIntType => {
                "expected one of u8/u16/u32/u64 as the register type"
            },
        }
    }
}

impl SemanticErrorKind {
    /// The human-readable message for this kind.
    pub fn message(self) -> (r: &'static str)
        ensures
            self is EndBeforeStart ==> r@ == "end of range must not be smaller than start of range"@,
            self is BoundTooLarge ==> r@ == "range bound is too large"@,
    {
        match self {
            SemanticErrorKind::EndBeforeStart => {
                "end of range must not be smaller than start of range"
            },
            SemanticErrorKind::BoundTooLarge => "range bound is too large",
        }
    }
}

} // verus!
