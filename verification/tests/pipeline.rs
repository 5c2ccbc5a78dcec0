//! End-to-end and per-stage tests of the compiler pipeline.

use regi::ast::{Permission, RangeTo, RegisterRange, ResolvedRange};
use regi::error::{CompileError, LayoutErrorKind, SemanticErrorKind, SyntaxErrorKind};
use regi::lex::{lex, Token};
use regi::resolve::resolve_block;
use regi::validate::validate_block;

fn lex_ok(src: &[u8]) -> Vec<Token> {
    lex(src).expect("lexing should succeed")
}

#[test]
fn literal_range_resolves_to_width_one() {
    // A single-bit literal resolves to width 1 regardless of its numeric
    // position, and independently of the register width.
    for n in [0u64, 1, 7, 31, 63, 1000, u64::MAX] {
        let r = RegisterRange::Lit(n).resolve(32).expect("literal must resolve");
        assert_eq!(r, ResolvedRange { start: n, width: 1 });
    }
}

#[test]
fn inclusive_and_exclusive_ranges_resolve() {
    // "3..=5" resolves to start=3, width=3 (bits 3, 4, 5).
    let toks = lex_ok(b"3..=5");
    let (r, used) = RegisterRange::parse(&toks, 0).expect("range must parse");
    assert_eq!(used, toks.len());
    assert_eq!(
        r,
        RegisterRange::Span {
            from: Some(3),
            to: RangeTo::Incl(5)
        }
    );
    assert_eq!(
        r.resolve(32).unwrap(),
        ResolvedRange { start: 3, width: 3 }
    );

    // "3..5" resolves to start=3, width=2 (bits 3, 4).
    let toks = lex_ok(b"3..5");
    let (r, _) = RegisterRange::parse(&toks, 0).expect("range must parse");
    assert_eq!(
        r.resolve(32).unwrap(),
        ResolvedRange { start: 3, width: 2 }
    );
}

#[test]
fn reversed_range_is_a_semantic_error() {
    // "5..2" is rejected, never silently treated as empty or reordered.
    let toks = lex_ok(b"5..2");
    let (r, _) = RegisterRange::parse(&toks, 0).expect("range must parse");
    let err = r.resolve(32).expect_err("reversed range must be rejected");
    assert_eq!(err, SemanticErrorKind::EndBeforeStart);
    assert_eq!(
        err.message(),
        "end of range must not be smaller than start of range"
    );

    // The same holds for inclusive ranges whose end stays below the start.
    let toks = lex_ok(b"5..=2");
    let (r, _) = RegisterRange::parse(&toks, 0).expect("range must parse");
    assert_eq!(r.resolve(32), Err(SemanticErrorKind::EndBeforeStart));
}

#[test]
fn width_is_end_minus_start() {
    // Post-resolution, width == end - start for every resolvable form.
    let cases: &[(&[u8], u64, u64)] = &[
        (b"2..7", 2, 5),
        (b"0..=0", 0, 1),
        (b"..4", 0, 4),
        (b"4..", 4, 12),
        (b"..", 0, 16),
        (b"8..=15", 8, 8),
    ];
    for (src, start, width) in cases {
        let toks = lex_ok(src);
        let (r, _) = RegisterRange::parse(&toks, 0).expect("range must parse");
        assert_eq!(
            r.resolve(16).unwrap(),
            ResolvedRange {
                start: *start,
                width: *width
            },
            "source {:?}",
            core::str::from_utf8(src).unwrap()
        );
    }
}

#[test]
fn open_range_beyond_register_width_is_rejected() {
    let toks = lex_ok(b"20..");
    let (r, _) = RegisterRange::parse(&toks, 0).unwrap();
    assert_eq!(r.resolve(16), Err(SemanticErrorKind::EndBeforeStart));
}

#[test]
fn semantic_errors_point_at_the_field() {
    let err = regi::compile(b"blk { 0 => a as u8 { r ok: 0, r bad: 5..2 } }")
        .expect_err("reversed range must fail the unit");
    match err {
        CompileError::Semantic(e) => {
            assert_eq!(e.register, 0);
            assert_eq!(e.field, 1);
            assert_eq!(e.kind, SemanticErrorKind::EndBeforeStart);
        }
        other => panic!("expected a semantic error, got {:?}", other),
    }
}

#[test]
fn unknown_permission_names_the_accepted_set() {
    // An unknown permission token fails parsing and the error names the
    // accepted set {r, w, rw}.
    let toks = lex_ok(b"x");
    let err = Permission::parse(&toks, 0).expect_err("x is no permission");
    assert_eq!(err.kind, SyntaxErrorKind::UnknownPermission);
    assert_eq!(
        err.kind.message(),
        "unrecognized permissions - r/w/rw are supported values"
    );

    // The same error surfaces through a whole unit.
    let err = regi::compile(b"blk { 0 => r1 as u8 { x f: 0 } }")
        .expect_err("unknown permission must fail the unit");
    match err {
        CompileError::Syntax(e) => assert_eq!(e.kind, SyntaxErrorKind::UnknownPermission),
        other => panic!("expected a syntax error, got {:?}", other),
    }
}

#[test]
fn permissions_combine_to_the_common_level() {
    // Full access is reconcilable with anything at the other side's level.
    assert_eq!(
        Permission::ReadWrite.combine(Permission::Read),
        Some(Permission::Read)
    );
    assert_eq!(
        Permission::ReadWrite.combine(Permission::Write),
        Some(Permission::Write)
    );
    assert_eq!(
        Permission::ReadWrite.combine(Permission::ReadWrite),
        Some(Permission::ReadWrite)
    );
    assert_eq!(
        Permission::Read.combine(Permission::ReadWrite),
        Some(Permission::Read)
    );
    assert_eq!(
        Permission::Write.combine(Permission::ReadWrite),
        Some(Permission::Write)
    );
    // Equal levels keep their level.
    assert_eq!(
        Permission::Read.combine(Permission::Read),
        Some(Permission::Read)
    );
    assert_eq!(
        Permission::Write.combine(Permission::Write),
        Some(Permission::Write)
    );
    // Read-only with write-only is not combinable.
    assert_eq!(Permission::Read.combine(Permission::Write), None);
    assert_eq!(Permission::Write.combine(Permission::Read), None);
}

#[test]
fn accepted_permissions_parse_exactly() {
    for (src, want) in [
        (b"r" as &[u8], Permission::Read),
        (b"w", Permission::Write),
        (b"rw", Permission::ReadWrite),
    ] {
        let toks = lex_ok(src);
        let (p, used) = Permission::parse(&toks, 0).expect("permission must parse");
        assert_eq!(p, want);
        assert_eq!(used, 1);
    }
}

#[test]
fn end_to_end_single_register() {
    // Parsing `0x10 => status as u32 { rw flag: 0 }` yields one register
    // layout at address 16 with a single field `flag`, width 1, bit 0,
    // permission ReadWrite.
    let toks = lex_ok(b"0x10 => status as u32 { rw flag: 0 }");
    let (layout, used) = regi::ast::RegisterLayout::parse(&toks, 0).expect("layout must parse");
    assert_eq!(used, toks.len());
    assert_eq!(layout.address(), 16);
    assert_eq!(layout.reg.name, b"status".to_vec());
    assert_eq!(layout.reg.ty, regi::ast::IntType::U32);
    assert_eq!(layout.reg.fields.len(), 1);
    let f = &layout.reg.fields[0];
    assert_eq!(f.name, b"flag".to_vec());
    assert_eq!(f.permission, Permission::ReadWrite);
    assert_eq!(
        f.range.resolve(32).unwrap(),
        ResolvedRange { start: 0, width: 1 }
    );

    // The same unit inside a block synthesizes mask 1, shift 0.
    let art = regi::compile(b"blk { 0x10 => status as u32 { rw flag: 0 } }")
        .expect("unit must compile");
    assert_eq!(art.name, b"blk".to_vec());
    assert_eq!(art.align, 4);
    assert_eq!(art.registers.len(), 1);
    let reg = &art.registers[0];
    assert_eq!(reg.offset, 16);
    assert_eq!(reg.bits, 32);
    assert_eq!(reg.name, b"status".to_vec());
    assert_eq!(reg.fields.len(), 1);
    let fa = &reg.fields[0];
    assert_eq!(fa.name, b"flag".to_vec());
    assert_eq!(fa.mask, 1);
    assert_eq!(fa.shift, 0);
    assert_eq!(fa.permission, Permission::ReadWrite);
    assert_eq!(fa.register, 0);
}

#[test]
fn overlapping_fields_fail_validation() {
    // Field A at bits 0..4 and field B at bits 2..6 overlap.
    let err = regi::compile(b"blk { 0 => r1 as u8 { r a: 0..4, r b: 2..6 } }")
        .expect_err("overlap must fail");
    match err {
        CompileError::Layout(e) => {
            assert_eq!(e.kind, LayoutErrorKind::OverlappingFields);
            assert_eq!(e.register, 0);
        }
        other => panic!("expected a layout error, got {:?}", other),
    }
}

#[test]
fn field_beyond_declared_width_fails_validation() {
    let err = regi::compile(b"blk { 0 => r1 as u8 { r a: 4..12 } }")
        .expect_err("out-of-range field must fail");
    match err {
        CompileError::Layout(e) => assert_eq!(e.kind, LayoutErrorKind::FieldOutOfRange),
        other => panic!("expected a layout error, got {:?}", other),
    }
}

#[test]
fn duplicate_names_fail_validation() {
    let err = regi::compile(b"blk { 0 => r1 as u8 { r a: 0, w a: 1 } }")
        .expect_err("duplicate field names must fail");
    match err {
        CompileError::Layout(e) => assert_eq!(e.kind, LayoutErrorKind::DuplicateFieldName),
        other => panic!("expected a layout error, got {:?}", other),
    }

    let err = regi::compile(b"blk { 0 => r1 as u8 { r a: 0 }, 1 => r1 as u8 { r b: 0 } }")
        .expect_err("duplicate register names must fail");
    match err {
        CompileError::Layout(e) => assert_eq!(e.kind, LayoutErrorKind::DuplicateRegisterName),
        other => panic!("expected a layout error, got {:?}", other),
    }

    let err = regi::compile(b"blk { 0 => r1 as u8 { r a: 0..4 = enum M { A = 1, A = 2 } } }")
        .expect_err("duplicate discriminants must fail");
    match err {
        CompileError::Layout(e) => assert_eq!(e.kind, LayoutErrorKind::DuplicateDiscriminant),
        other => panic!("expected a layout error, got {:?}", other),
    }
}

#[test]
fn field_options_are_carried_through() {
    let toks = lex_ok(b"blk { 0 => m as u16 { rw mode: 0..2 = enum Mode { Off = 0, On = 1, } } }");
    let (block, used) = regi::ast::RegisterBlock::parse(&toks, 0).expect("block must parse");
    assert_eq!(used, toks.len());
    let f = &block.registers[0].reg.fields[0];
    let o = f.options.as_ref().expect("options must be present");
    assert_eq!(o.name, b"Mode".to_vec());
    assert_eq!(o.discriminants.len(), 2);
    assert_eq!(o.discriminants[0].name, b"Off".to_vec());
    assert_eq!(o.discriminants[0].value, 0);
    assert_eq!(o.discriminants[1].name, b"On".to_vec());
    assert_eq!(o.discriminants[1].value, 1);

    let resolved = resolve_block(block).expect("block must resolve");
    assert!(validate_block(&resolved).is_ok());
}

#[test]
fn multi_register_blocks_synthesize_in_order() {
    let art = regi::compile(
        b"pub blk { 0x0 => ctrl as u8 { rw en: 0, r st: 1..3 }, 0x4 => data as u16 { rw v: .. } }",
    )
    .expect("unit must compile");
    assert_eq!(art.align, 1);
    assert_eq!(art.registers.len(), 2);
    assert_eq!(art.registers[0].offset, 0);
    assert_eq!(art.registers[0].bits, 8);
    assert_eq!(art.registers[1].offset, 4);
    assert_eq!(art.registers[1].bits, 16);
    // Identity tags bind each field to its owning register.
    assert_eq!(art.registers[0].fields[0].register, 0);
    assert_eq!(art.registers[0].fields[1].register, 0);
    assert_eq!(art.registers[1].fields[0].register, 1);
    // st at bits 1..3: mask 0b110, shift 1.
    assert_eq!(art.registers[0].fields[1].mask, 0b110);
    assert_eq!(art.registers[0].fields[1].shift, 1);
    // v spans the whole u16: mask 0xffff, shift 0.
    assert_eq!(art.registers[1].fields[0].mask, 0xffff);
    assert_eq!(art.registers[1].fields[0].shift, 0);
}

#[test]
fn override_directive_and_attributes_are_accepted() {
    let toks = lex_ok(b"#![crate = myregs] blk { 0 => a as u8 { r f: 0 } }");
    let (inp, used) = regi::ast::Input::parse(&toks, 0).expect("input must parse");
    assert_eq!(used, toks.len());
    assert_eq!(inp.krate, Some(vec![b"myregs".to_vec()]));

    let toks = lex_ok(b"#![crate = path::to::regs] blk { }");
    let (inp, _) = regi::ast::Input::parse(&toks, 0).expect("input must parse");
    assert_eq!(
        inp.krate,
        Some(vec![b"path".to_vec(), b"to".to_vec(), b"regs".to_vec()])
    );

    let art = regi::compile(b"#[doc] pub blk { #[cold] 0 => a as u8 { r f: 0 } }")
        .expect("attributes are skipped");
    assert_eq!(art.registers.len(), 1);

    // Attribute bodies may hold any tokens with balanced brackets.
    let art = regi::compile(
        b"#[doc = \"a status block\"] #[cfg(any(a, b))] blk { #[deprecated(note = \"x\")] 0 => a as u8 { r f: 0 } }",
    )
    .expect("full attribute bodies are skipped");
    assert_eq!(art.registers.len(), 1);
}

#[test]
fn empty_block_compiles() {
    let art = regi::compile(b"blk { }").expect("empty block must compile");
    assert_eq!(art.registers.len(), 0);
    assert_eq!(art.align, 1);
}

#[test]
fn token_streams_compile_directly() {
    // `b { 1 => c as u8 { r f: 0 } }` as hand-built tokens.
    let toks = vec![
        Token::Ident(b"b".to_vec()),
        Token::LBrace,
        Token::Int(1),
        Token::FatArrow,
        Token::Ident(b"c".to_vec()),
        Token::KwAs,
        Token::Ident(b"u8".to_vec()),
        Token::LBrace,
        Token::Ident(b"r".to_vec()),
        Token::Ident(b"f".to_vec()),
        Token::Colon,
        Token::Int(0),
        Token::RBrace,
        Token::RBrace,
    ];
    let art = regi::compile_tokens(&toks).expect("token stream must compile");
    assert_eq!(art.registers.len(), 1);
    assert_eq!(art.registers[0].offset, 1);
    assert_eq!(art.registers[0].fields[0].mask, 1);
}

#[test]
fn keyword_lookalikes_stay_identifiers() {
    assert_eq!(
        lex_ok(b"crates enums pubx as_"),
        vec![
            Token::Ident(b"crates".to_vec()),
            Token::Ident(b"enums".to_vec()),
            Token::Ident(b"pubx".to_vec()),
            Token::Ident(b"as_".to_vec()),
        ]
    );
}

#[test]
fn lexer_decodes_literals_exactly() {
    assert_eq!(lex_ok(b"0x1f"), vec![Token::Int(31)]);
    assert_eq!(lex_ok(b"0xFF"), vec![Token::Int(255)]);
    assert_eq!(lex_ok(b"42"), vec![Token::Int(42)]);
    assert_eq!(lex_ok(b"0b101"), vec![Token::Int(5)]);
    assert_eq!(lex_ok(b"0o17"), vec![Token::Int(15)]);
    assert_eq!(
        lex_ok(b"18446744073709551615"),
        vec![Token::Int(u64::MAX)]
    );
    let err = lex(b"18446744073709551616").expect_err("overflow must fail");
    assert_eq!(err.kind, SyntaxErrorKind::IntegerOverflow);
    let err = lex(b"0x10000000000000000").expect_err("overflow must fail");
    assert_eq!(err.kind, SyntaxErrorKind::IntegerOverflow);
}

#[test]
fn lexer_accepts_underscore_separators() {
    assert_eq!(lex_ok(b"1_000"), vec![Token::Int(1000)]);
    assert_eq!(lex_ok(b"0x_ff"), vec![Token::Int(255)]);
    assert_eq!(lex_ok(b"0xf_f_"), vec![Token::Int(255)]);
    assert_eq!(lex_ok(b"0b1_01"), vec![Token::Int(5)]);
    assert_eq!(lex_ok(b"0o1_7"), vec![Token::Int(15)]);
    // A literal of separators alone has no value.
    let err = lex(b"0x__").expect_err("separators alone are no literal");
    assert_eq!(err.kind, SyntaxErrorKind::UnexpectedByte);
    // A digit outside the base's set does not belong to the literal.
    let err = lex(b"0b2").expect_err("2 is no binary digit");
    assert_eq!(err.kind, SyntaxErrorKind::UnexpectedByte);
}

#[test]
fn lexer_reads_strings_and_parens() {
    assert_eq!(
        lex_ok(b"( \"some text\" )"),
        vec![
            Token::LParen,
            Token::Str(b"some text".to_vec()),
            Token::RParen,
        ]
    );
    let err = lex(b"\"never closed").expect_err("unterminated string must fail");
    assert_eq!(err.kind, SyntaxErrorKind::UnexpectedByte);
    assert_eq!(err.pos, 0);
}

#[test]
fn lexer_rejects_stray_bytes() {
    let err = lex(b"blk $ {}").expect_err("stray byte must fail");
    assert_eq!(err.kind, SyntaxErrorKind::UnexpectedByte);
    assert_eq!(err.pos, 4);
    let err = lex(b"1.5").expect_err("single dot starts no token");
    assert_eq!(err.kind, SyntaxErrorKind::UnexpectedByte);
}

#[test]
fn lexer_splits_punctuation() {
    assert_eq!(
        lex_ok(b"a => b .. ..= :: : , = # ! [ ] { }"),
        vec![
            Token::Ident(b"a".to_vec()),
            Token::FatArrow,
            Token::Ident(b"b".to_vec()),
            Token::DotDot,
            Token::DotDotEq,
            Token::PathSep,
            Token::Colon,
            Token::Comma,
            Token::Eq,
            Token::Pound,
            Token::Bang,
            Token::LBracket,
            Token::RBracket,
            Token::LBrace,
            Token::RBrace,
        ]
    );
    assert_eq!(
        lex_ok(b"as enum pub crate"),
        vec![Token::KwAs, Token::KwEnum, Token::KwPub, Token::KwCrate]
    );
}

#[test]
fn malformed_units_are_syntax_errors() {
    // A width that is neither a literal nor a range; the error points at
    // the offending token.
    let err = regi::compile(b"blk { 0 => a as u8 { r f: as } }").unwrap_err();
    match err {
        CompileError::Syntax(e) => {
            assert_eq!(e.kind, SyntaxErrorKind::ExpectedRangeOrInt);
            assert_eq!(e.pos, 11);
            assert_eq!(
                e.kind.message(),
                "expected a numeric literal or a range expression denoting the field width"
            );
        }
        other => panic!("expected a syntax error, got {:?}", other),
    }
    // A missing `=>` after the address literal.
    let err = regi::compile(b"blk { 0 a as u8 { r f: 0 } }").unwrap_err();
    match err {
        CompileError::Syntax(e) => {
            assert_eq!(e.kind, SyntaxErrorKind::ExpectedToken);
            assert_eq!(e.pos, 3);
        }
        other => panic!("expected a syntax error, got {:?}", other),
    }
    // A sub-parser's error surfaces unchanged: the bad permission in the
    // second register keeps its own kind and position.
    let err =
        regi::compile(b"blk { 0 => a as u8 { r f: 0 }, 1 => b as u8 { bad g: 0 } }").unwrap_err();
    match err {
        CompileError::Syntax(e) => {
            assert_eq!(e.kind, SyntaxErrorKind::UnknownPermission);
            assert_eq!(e.pos, 20);
        }
        other => panic!("expected a syntax error, got {:?}", other),
    }
    // An unknown backing type.
    let err = regi::compile(b"blk { 0 => a as u12 { r f: 0 } }").unwrap_err();
    match err {
        CompileError::Syntax(e) => assert_eq!(e.kind, SyntaxErrorKind::UnknownIntType),
        other => panic!("expected a syntax error, got {:?}", other),
    }
    // An inclusive range without its upper bound.
    let err = regi::compile(b"blk { 0 => a as u8 { r f: 1..= } }").unwrap_err();
    match err {
        CompileError::Syntax(e) => assert_eq!(e.kind, SyntaxErrorKind::ExpectedInt),
        other => panic!("expected a syntax error, got {:?}", other),
    }
    // Trailing tokens after the block.
    let err = regi::compile(b"blk { } junk").unwrap_err();
    match err {
        CompileError::Syntax(e) => assert_eq!(e.kind, SyntaxErrorKind::TrailingTokens),
        other => panic!("expected a syntax error, got {:?}", other),
    }
}

#[test]
fn realization_binds_base_addresses() {
    let art = regi::compile(b"blk { 0x0 => a as u32 { r f: 0 }, 0x8 => b as u32 { r g: 0 } }")
        .expect("unit must compile");
    assert_eq!(art.align, 4);
    // A zero base is rejected.
    assert_eq!(art.realize(0), None);
    // An unaligned base is rejected.
    assert_eq!(art.realize(0x1002), None);
    // An aligned non-zero base yields absolute addresses in order.
    assert_eq!(art.realize(0x4000_0000), Some(vec![0x4000_0000, 0x4000_0008]));
    // An overflowing absolute address is rejected.
    assert_eq!(art.realize(u64::MAX - 3), None);
}

#[test]
fn aligned_addresses_are_recognized() {
    assert!(regi::synth::is_aligned(0x1000, 8));
    assert!(regi::synth::is_aligned(12, 4));
    assert!(!regi::synth::is_aligned(13, 4));
    assert!(regi::synth::is_aligned(7, 1));
    assert!(!regi::synth::is_aligned(2, 8));
}

#[test]
fn zero_width_fields_mask_nothing() {
    let art = regi::compile(b"blk { 0 => a as u8 { r f: 3..3 } }").expect("unit must compile");
    assert_eq!(art.registers[0].fields[0].mask, 0);
    assert_eq!(art.registers[0].fields[0].shift, 0);

    // Even a zero-width field at the very top of the widest register
    // synthesizes a shift the access layer accepts.
    let art = regi::compile(b"blk { 0 => a as u64 { r z: 64.. } }").expect("unit must compile");
    assert_eq!(art.registers[0].fields[0].mask, 0);
    assert_eq!(art.registers[0].fields[0].shift, 0);
}

#[test]
fn top_position_literal_is_a_layout_error() {
    // A single-bit literal resolves to width 1 at any position; a
    // position beyond the declared width is the validator's rejection.
    assert_eq!(
        RegisterRange::Lit(u64::MAX).resolve(64).unwrap(),
        ResolvedRange {
            start: u64::MAX,
            width: 1
        }
    );
    let err = regi::compile(b"blk { 0 => a as u64 { r f: 18446744073709551615 } }")
        .expect_err("a literal beyond the width must fail validation");
    match err {
        CompileError::Layout(e) => assert_eq!(e.kind, LayoutErrorKind::FieldOutOfRange),
        other => panic!("expected a layout error, got {:?}", other),
    }
}

#[test]
fn full_width_field_masks_everything() {
    let art = regi::compile(b"blk { 0 => a as u64 { rw all: .. } }").expect("unit must compile");
    assert_eq!(art.registers[0].fields[0].mask, u64::MAX);
    assert_eq!(art.registers[0].fields[0].shift, 0);
}
