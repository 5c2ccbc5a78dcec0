//! The lexer: turns register-description source bytes into a token
//! stream, verified against a byte-level specification of the tokens.
//!
//! Tokens are identifiers (with `as`, `enum`, `pub` and `crate`
//! classified as keywords), integer literals (decimal, `0x`, `0o` and
//! `0b`, with underscore separators), quoted strings (escape sequences
//! uninterpreted; they occur only inside attributes), and the
//! punctuation of the grammar. Whitespace separates tokens and is
//! otherwise ignored. Lexing succeeds exactly when the source is a
//! whitespace-separated sequence of such tokens whose literals fit the
//! 64-bit value type; a stray byte, an unterminated string or an
//! overflowing literal aborts the unit with a syntax error carrying the
//! byte offset.

use vstd::prelude::*;

use crate::error::{SyntaxError, SyntaxErrorKind};

verus! {

/// One token of the register-description language.
#[derive(Clone, Debug, PartialEq, Eq)]
pub enum Token {
    /// An identifier that is not a keyword.
    Ident(Vec<u8>),
    /// An integer literal, already decoded.
    Int(u64),
    /// The keyword `as`.
    KwAs,
    /// The keyword `enum`.
    KwEnum,
    /// The keyword `pub`.
    KwPub,
    /// The keyword `crate`.
    KwCrate,
    /// `{`
    LBrace,
    /// `}`
    RBrace,
    /// `[`
    LBracket,
    /// `]`
    RBracket,
    /// `:`
    Colon,
    /// `::`
    PathSep,
    /// `,`
    Comma,
    /// `=`
    Eq,
    /// `=>`
    FatArrow,
    /// `..`
    DotDot,
    /// `..=`
    DotDotEq,
    /// `#`
    Pound,
    /// `!`
    Bang,
    /// `(`
    LParen,
    /// `)`
    RParen,
    /// A quoted string literal, holding the bytes between the quotes.
    /// Escape sequences are not interpreted; strings appear only inside
    /// attributes, which the parser discards.
    Str(Vec<u8>),
}

/// Whether `b` is an ASCII decimal digit.
pub open spec fn is_digit(b: u8) -> bool {
    48 <= b <= 57
}

/// Whether `b` is an ASCII hexadecimal digit.
pub open spec fn is_hex_digit(b: u8) -> bool {
    is_digit(b) || (97 <= b <= 102) || (65 <= b <= 70)
}

/// Whether `b` may start an identifier: a letter or underscore.
pub open spec fn is_ident_start(b: u8) -> bool {
    (97 <= b <= 122) || (65 <= b <= 90) || b == 95
}

/// Whether `b` may continue an identifier.
pub open spec fn is_ident_cont(b: u8) -> bool {
    is_ident_start(b) || is_digit(b)
}

/// Whether `b` is whitespace.
pub open spec fn is_space(b: u8) -> bool {
    b == 32 || b == 9 || b == 10 || b == 13
}

/// The numeric value of one hexadecimal digit.
pub open spec fn hex_digit_val(b: u8) -> int {
    if is_digit(b) {
        b - 48
    } else if 97 <= b <= 102 {
        b - 97 + 10
    } else {
        b - 65 + 10
    }
}

/// Whether `b` is a digit of the given base (2, 8, 10 or 16).
pub open spec fn radix_digit(base: int, b: u8) -> bool {
    if base == 16 {
        is_hex_digit(b)
    } else if base == 10 {
        is_digit(b)
    } else if base == 8 {
        48 <= b <= 55
    } else {
        b == 48 || b == 49
    }
}

/// Whether `b` may stand in an integer literal of the given base: one of
/// its digits, or the underscore separator.
pub open spec fn radix_lit_byte(base: int, b: u8) -> bool {
    radix_digit(base, b) || b == 95
}

/// The value of a digit string of the given base, most significant
/// digit first, underscores skipped.
pub open spec fn radix_val(base: int, s: Seq<u8>) -> int
    decreases s.len(),
{
    if s.len() == 0 {
        0
    } else if s.last() == 95 {
        radix_val(base, s.drop_last())
    } else {
        radix_val(base, s.drop_last()) * base + hex_digit_val(s.last())
    }
}

/// Whether the bytes from `i` up to `j` hold at least one digit of the
/// given base: an integer literal may not consist of separators alone.
pub open spec fn has_radix_digit(base: int, src: Seq<u8>, i: int, j: int) -> bool {
    exists|k: int| i <= k < j && radix_digit(base, #[trigger] src[k])
}

/// The end of the maximal run of identifier bytes from `i`.
pub open spec fn ident_run_end(src: Seq<u8>, i: int) -> int
    decreases src.len() - i,
{
    if i < src.len() && is_ident_cont(src[i]) {
        ident_run_end(src, i + 1)
    } else {
        i
    }
}

/// The end of the maximal run of literal bytes of the given base from
/// `i`.
pub open spec fn radix_run_end(base: int, src: Seq<u8>, i: int) -> int
    decreases src.len() - i,
{
    if i < src.len() && radix_lit_byte(base, src[i]) {
        radix_run_end(base, src, i + 1)
    } else {
        i
    }
}

/// The position just after the closing quote of a string whose body
/// starts at `i`, or `None` when the string never closes.
pub open spec fn str_body_end(src: Seq<u8>, i: int) -> Option<int>
    decreases src.len() - i,
{
    if i >= src.len() {
        None
    } else if src[i] == 34 {
        Some(i + 1)
    } else {
        str_body_end(src, i + 1)
    }
}

/// The base a literal prefix byte selects: `x` is hexadecimal, `b`
/// binary, `o` octal.
pub open spec fn prefix_base(b: u8) -> int {
    if b == 120 {
        16
    } else if b == 98 {
        2
    } else {
        8
    }
}

/// The end of the token starting at byte `i`, which must not be
/// whitespace, or `None` when no token starts there: an identifier or
/// integer literal takes its maximal run (a literal must fit the value
/// type), punctuation takes the longest of its spellings, and a single
/// `.` starts no token.
pub open spec fn token_end(src: Seq<u8>, i: int) -> Option<int> {
    let b = src[i];
    if is_ident_start(b) {
        Some(ident_run_end(src, i))
    } else if is_digit(b) {
        if b == 48 && i + 1 < src.len() && (src[i + 1] == 120 || src[i + 1] == 98 || src[i + 1]
            == 111) {
            let base = prefix_base(src[i + 1]);
            if i + 2 < src.len() && radix_lit_byte(base, src[i + 2]) {
                let j = radix_run_end(base, src, i + 2);
                if has_radix_digit(base, src, i + 2, j) && radix_val(base, src.subrange(i + 2, j))
                    <= u64::MAX {
                    Some(j)
                } else {
                    None
                }
            } else {
                None
            }
        } else {
            let j = radix_run_end(10, src, i);
            if radix_val(10, src.subrange(i, j)) <= u64::MAX {
                Some(j)
            } else {
                None
            }
        }
    } else if b == 123 || b == 125 || b == 91 || b == 93 || b == 44 || b == 35 || b == 33 {
        Some(i + 1)
    } else if b == 58 {
        if i + 1 < src.len() && src[i + 1] == 58 {
            Some(i + 2)
        } else {
            Some(i + 1)
        }
    } else if b == 61 {
        if i + 1 < src.len() && src[i + 1] == 62 {
            Some(i + 2)
        } else {
            Some(i + 1)
        }
    } else if b == 46 {
        if i + 1 < src.len() && src[i + 1] == 46 {
            if i + 2 < src.len() && src[i + 2] == 61 {
                Some(i + 3)
            } else {
                Some(i + 2)
            }
        } else {
            None
        }
    } else if b == 40 || b == 41 {
        Some(i + 1)
    } else if b == 34 {
        str_body_end(src, i + 1)
    } else {
        None
    }
}

/// The token an identifier's bytes stand for: one of the four keywords,
/// or the identifier itself.
pub open spec fn ident_token(bytes: Seq<u8>, t: Token) -> bool {
    if bytes == seq![97u8, 115u8] {
        t is KwAs
    } else if bytes == seq![101u8, 110u8, 117u8, 109u8] {
        t is KwEnum
    } else if bytes == seq![112u8, 117u8, 98u8] {
        t is KwPub
    } else if bytes == seq![99u8, 114u8, 97u8, 116u8, 101u8] {
        t is KwCrate
    } else {
        match t {
            Token::Ident(v) => v@ == bytes,
            _ => false,
        }
    }
}

/// Whether the bytes from `i` up to `j` spell exactly the token `t`,
/// with `j` the token's end per [`token_end`].
pub open spec fn token_rel(src: Seq<u8>, i: int, t: Token, j: int) -> bool {
    let b = src[i];
    &&& token_end(src, i) == Some(j)
    &&& if is_ident_start(b) {
        ident_token(src.subrange(i, j), t)
    } else if is_digit(b) {
        if b == 48 && i + 1 < src.len() && (src[i + 1] == 120 || src[i + 1] == 98 || src[i + 1]
            == 111) {
            match t {
                Token::Int(n) => n == radix_val(prefix_base(src[i + 1]), src.subrange(i + 2, j)),
                _ => false,
            }
        } else {
            match t {
                Token::Int(n) => n == radix_val(10, src.subrange(i, j)),
                _ => false,
            }
        }
    } else if b == 123 {
        t is LBrace
    } else if b == 125 {
        t is RBrace
    } else if b == 91 {
        t is LBracket
    } else if b == 93 {
        t is RBracket
    } else if b == 44 {
        t is Comma
    } else if b == 35 {
        t is Pound
    } else if b == 33 {
        t is Bang
    } else if b == 58 {
        if j == i + 2 {
            t is PathSep
        } else {
            t is Colon
        }
    } else if b == 61 {
        if j == i + 2 {
            t is FatArrow
        } else {
            t is Eq
        }
    } else if b == 46 {
        if j == i + 3 {
            t is DotDotEq
        } else {
            t is DotDot
        }
    } else if b == 40 {
        t is LParen
    } else if b == 41 {
        t is RParen
    } else if b == 34 {
        match t {
            Token::Str(v) => v@ == src.subrange(i + 1, j - 1),
            _ => false,
        }
    } else {
        false
    }
}

/// A maximal identifier run never moves backwards and stays within the
/// source.
pub proof fn lemma_ident_run_bounds(src: Seq<u8>, i: int)
    ensures
        i <= ident_run_end(src, i),
        i <= src.len() ==> ident_run_end(src, i) <= src.len(),
    decreases src.len() - i,
{
    if i < src.len() && is_ident_cont(src[i]) {
        lemma_ident_run_bounds(src, i + 1);
    }
}

/// A maximal literal run never moves backwards and stays within the
/// source.
pub proof fn lemma_radix_run_bounds(base: int, src: Seq<u8>, i: int)
    ensures
        i <= radix_run_end(base, src, i),
        i <= src.len() ==> radix_run_end(base, src, i) <= src.len(),
    decreases src.len() - i,
{
    if i < src.len() && radix_lit_byte(base, src[i]) {
        lemma_radix_run_bounds(base, src, i + 1);
    }
}

/// A scan that read identifier bytes up to the first non-identifier byte
/// found the maximal run.
proof fn lemma_ident_run_is(src: Seq<u8>, i: int, j: int)
    requires
        0 <= i <= j <= src.len(),
        forall|k: int| i <= k < j ==> is_ident_cont(#[trigger] src[k]),
        j == src.len() || !is_ident_cont(src[j]),
    ensures
        ident_run_end(src, i) == j,
    decreases j - i,
{
    if i < j {
        lemma_ident_run_is(src, i + 1, j);
    }
}

/// A scan that read literal bytes up to the first other byte found the
/// maximal run.
proof fn lemma_radix_run_is(base: int, src: Seq<u8>, i: int, j: int)
    requires
        0 <= i <= j <= src.len(),
        forall|k: int| i <= k < j ==> radix_lit_byte(base, #[trigger] src[k]),
        j == src.len() || !radix_lit_byte(base, src[j]),
    ensures
        radix_run_end(base, src, i) == j,
    decreases j - i,
{
    if i < j {
        lemma_radix_run_is(base, src, i + 1, j);
    }
}

/// Every byte of a maximal literal run is a literal byte.
proof fn lemma_radix_run_bytes(base: int, src: Seq<u8>, i: int)
    ensures
        forall|k: int|
            i <= k < radix_run_end(base, src, i) ==> radix_lit_byte(base, #[trigger] src[k]),
    decreases src.len() - i,
{
    if i < src.len() && radix_lit_byte(base, src[i]) {
        lemma_radix_run_bytes(base, src, i + 1);
    }
}

/// Skipping a literal-byte prefix does not change where the maximal
/// run ends.
proof fn lemma_radix_run_skip(base: int, src: Seq<u8>, i: int, j: int)
    requires
        0 <= i <= j <= src.len(),
        forall|k: int| i <= k < j ==> radix_lit_byte(base, #[trigger] src[k]),
    ensures
        radix_run_end(base, src, i) == radix_run_end(base, src, j),
    decreases j - i,
{
    if i < j {
        lemma_radix_run_skip(base, src, i + 1, j);
    }
}

/// The value of a literal-byte string is never negative.
proof fn lemma_radix_val_nonneg(base: int, s: Seq<u8>)
    requires
        base >= 2,
        forall|k: int| 0 <= k < s.len() ==> radix_lit_byte(base, #[trigger] s[k]),
    ensures
        radix_val(base, s) >= 0,
    decreases s.len(),
{
    if s.len() > 0 {
        lemma_radix_val_nonneg(base, s.drop_last());
        if s.last() != 95 {
            assert(radix_digit(base, s.last()));
            assert(hex_digit_val(s.last()) >= 0);
            assert(radix_val(base, s.drop_last()) * base >= radix_val(base, s.drop_last()))
                by (nonlinear_arith)
                requires
                    base >= 2,
                    radix_val(base, s.drop_last()) >= 0,
            ;
        }
    }
}

/// Extending a literal-byte string to the right never shrinks its
/// value.
proof fn lemma_radix_val_extend(base: int, src: Seq<u8>, i: int, j: int, j2: int)
    requires
        base >= 2,
        0 <= i <= j <= j2 <= src.len(),
        forall|k: int| i <= k < j2 ==> radix_lit_byte(base, #[trigger] src[k]),
    ensures
        radix_val(base, src.subrange(i, j2)) >= radix_val(base, src.subrange(i, j)),
    decreases j2 - j,
{
    if j2 > j {
        lemma_radix_val_extend(base, src, i, j, j2 - 1);
        let cur = src.subrange(i, j2);
        assert(cur.drop_last() =~= src.subrange(i, j2 - 1));
        assert(forall|k: int|
            0 <= k < src.subrange(i, j2 - 1).len() ==> radix_lit_byte(
                base,
                #[trigger] src.subrange(i, j2 - 1)[k],
            ));
        lemma_radix_val_nonneg(base, src.subrange(i, j2 - 1));
        if cur.last() != 95 {
            assert(radix_digit(base, cur.last()));
            assert(hex_digit_val(cur.last()) >= 0);
            let prev = radix_val(base, src.subrange(i, j2 - 1));
            assert(prev * base >= prev) by (nonlinear_arith)
                requires
                    base >= 2,
                    prev >= 0,
            ;
        }
    }
}

/// A closing quote, where one exists, stands after the body's start and
/// within the source.
pub proof fn lemma_str_body_end_bounds(src: Seq<u8>, i: int)
    ensures
        str_body_end(src, i) matches Some(j) ==> i < j <= src.len(),
    decreases src.len() - i,
{
    if i < src.len() && src[i] != 34 {
        lemma_str_body_end_bounds(src, i + 1);
    }
}

/// A recognized token ends after its starting byte and within the
/// source.
pub proof fn lemma_token_end_bounds(src: Seq<u8>, i: int)
    ensures
        0 <= i < src.len() ==> (token_end(src, i) matches Some(j) ==> i < j <= src.len()),
{
    lemma_ident_run_bounds(src, i + 1);
    lemma_radix_run_bounds(10, src, i + 1);
    if 0 <= i && i + 1 < src.len() {
        lemma_radix_run_bounds(prefix_base(src[i + 1]), src, i + 3);
    }
    lemma_str_body_end_bounds(src, i + 1);
}

/// Whether the source from byte `i` on lexes: it is whitespace and
/// recognized tokens through to the end.
pub open spec fn lexable(src: Seq<u8>, i: int) -> bool
    decreases src.len() - i,
        when 0 <= i
{
    if i >= src.len() {
        true
    } else if is_space(src[i]) {
        lexable(src, i + 1)
    } else {
        match token_end(src, i) {
            Some(j) => {
                proof {
                    lemma_token_end_bounds(src, i);
                }
                lexable(src, j)
            },
            None => false,
        }
    }
}

/// Whether the bytes from `i` on spell exactly the token sequence
/// `toks`, whitespace between tokens skipped.
pub open spec fn lex_rel(src: Seq<u8>, i: int, toks: Seq<Token>) -> bool
    decreases toks.len(), src.len() - i,
        when 0 <= i
{
    if i >= src.len() {
        toks.len() == 0
    } else if is_space(src[i]) {
        lex_rel(src, i + 1, toks)
    } else {
        &&& toks.len() > 0
        &&& match token_end(src, i) {
            Some(j) => {
                proof {
                    lemma_token_end_bounds(src, i);
                }
                token_rel(src, i, toks[0], j) && lex_rel(src, j, toks.drop_first())
            },
            None => false,
        }
    }
}

/// The digit value of `b` in the given base, `None` for a byte that is
/// no digit of it (the underscore separator included).
fn radix_byte(base: u64, b: u8) -> (r: Option<u64>)
    requires
        base == 2 || base == 8 || base == 10 || base == 16,
    ensures
        r is Some <==> radix_digit(base as int, b),
        r matches Some(d) ==> d == hex_digit_val(b) && d < base,
{
    if base == 16 {
        if b >= 48 && b <= 57 {
            Some((b - 48) as u64)
        } else if b >= 97 && b <= 102 {
            Some((b - 97 + 10) as u64)
        } else if b >= 65 && b <= 70 {
            Some((b - 65 + 10) as u64)
        } else {
            None
        }
    } else if base == 10 {
        if b >= 48 && b <= 57 {
            Some((b - 48) as u64)
        } else {
            None
        }
    } else if base == 8 {
        if b >= 48 && b <= 55 {
            Some((b - 48) as u64)
        } else {
            None
        }
    } else {
        if b == 48 || b == 49 {
            Some((b - 48) as u64)
        } else {
            None
        }
    }
}

/// Whether `b` may stand in an integer literal of the given base.
fn is_lit_byte(base: u64, b: u8) -> (r: bool)
    requires
        base == 2 || base == 8 || base == 10 || base == 16,
    ensures
        r == radix_lit_byte(base as int, b),
{
    b == 95 || match radix_byte(base, b) {
        Some(_) => true,
        None => false,
    }
}

/// Scans the integer literal of the given base starting at `i`, which
/// must be a digit or separator of it.
///
/// Reads the maximal run of digits and separators and decodes its exact
/// value, reporting whether any digit was seen; `None` when the run's
/// value is beyond the 64-bit limit.
#[verifier::loop_isolation(false)]
fn lex_radix(src: &[u8], i: usize, base: u64) -> (r: Option<(u64, usize, bool)>)
    requires
        base == 2 || base == 8 || base == 10 || base == 16,
        i <= src.len(),
    ensures
        r matches Some((v, j, saw)) ==> {
            &&& j == radix_run_end(base as int, src@, i as int)
            &&& i <= j <= src.len()
            &&& v == radix_val(base as int, src@.subrange(i as int, j as int))
            &&& saw == has_radix_digit(base as int, src@, i as int, j as int)
        },
        r is Some <==> radix_val(
            base as int,
            src@.subrange(i as int, radix_run_end(base as int, src@, i as int)),
        ) <= u64::MAX,
{
    let mut v: u64 = 0;
    let mut saw: bool = false;
    let mut j: usize = i;
    while j < src.len() && is_lit_byte(base, src[j])
        invariant
            i <= j <= src.len(),
            forall|k: int| i <= k < j ==> radix_lit_byte(base as int, #[trigger] src@[k]),
            v == radix_val(base as int, src@.subrange(i as int, j as int)),
            saw == has_radix_digit(base as int, src@, i as int, j as int),
        decreases src.len() - j,
    {
        let b = src[j];
        let ghost pre = src@.subrange(i as int, j as int);
        proof {
            let cur = src@.subrange(i as int, j + 1);
            assert(cur.drop_last() =~= pre);
            assert(cur.last() == src@[j as int]);
        }
        if b == 95 {
            proof {
                if has_radix_digit(base as int, src@, i as int, j + 1) {
                    let k = choose|k: int|
                        i <= k < j + 1 && radix_digit(base as int, #[trigger] src@[k]);
                    assert(k < j);
                }
            }
            j += 1;
        } else {
            let d = match radix_byte(base, b) {
                Some(d) => d,
                None => {
                    assert(false);
                    0
                },
            };
            if v > (u64::MAX - d) / base {
                proof {
                    assert(v * base + d > u64::MAX) by (nonlinear_arith)
                        requires
                            v > (u64::MAX - d) / (base as int),
                            d < base,
                            2 <= base <= 16,
                    ;
                    lemma_radix_run_skip(base as int, src@, i as int, j + 1);
                    lemma_radix_run_bounds(base as int, src@, j + 1);
                    lemma_radix_run_bytes(base as int, src@, j + 1);
                    lemma_radix_val_extend(
                        base as int,
                        src@,
                        i as int,
                        j + 1,
                        radix_run_end(base as int, src@, i as int),
                    );
                }
                return None;
            }
            assert(v * base + d <= u64::MAX) by (nonlinear_arith)
                requires
                    v <= (u64::MAX - d) / (base as int),
                    d < base,
                    2 <= base <= 16,
            ;
            v = v * base + d;
            saw = true;
            proof {
                assert(radix_digit(base as int, src@[j as int]));
                assert(has_radix_digit(base as int, src@, i as int, j + 1));
            }
            j += 1;
        }
    }
    proof {
        lemma_radix_run_is(base as int, src@, i as int, j as int);
    }
    Some((v, j, saw))
}

/// Scans the identifier starting at `i`, which must be an identifier
/// start byte: the maximal run of identifier bytes.
#[verifier::loop_isolation(false)]
fn lex_ident(src: &[u8], i: usize) -> (r: (Vec<u8>, usize))
    requires
        i < src.len(),
        is_ident_start(src[i as int]),
    ensures
        r.1 == ident_run_end(src@, i as int),
        i < r.1 <= src.len(),
        r.0@ == src@.subrange(i as int, r.1 as int),
{
    let mut out: Vec<u8> = Vec::new();
    let mut j: usize = i;
    while j < src.len() && ((src[j] >= 97 && src[j] <= 122) || (src[j] >= 65 && src[j] <= 90) || src[j]
        == 95 || (src[j] >= 48 && src[j] <= 57))
        invariant
            i <= j <= src.len(),
            forall|k: int| i <= k < j ==> is_ident_cont(#[trigger] src@[k]),
            out@ =~= src@.subrange(i as int, j as int),
        decreases src.len() - j,
    {
        out.push(src[j]);
        j += 1;
        assert(out@ =~= src@.subrange(i as int, j as int));
    }
    proof {
        lemma_ident_run_is(src@, i as int, j as int);
    }
    assert(out@ =~= src@.subrange(i as int, j as int));
    (out, j)
}

/// Whether the identifier bytes are a keyword, and which token then
/// stands for it.
fn keyword_of(v: &Vec<u8>) -> (r: Option<Token>)
    ensures
        match r {
            Some(t) => ident_token(v@, t) && !(t is Ident),
            None => v@ !~= seq![97u8, 115u8] && v@ !~= seq![101u8, 110u8, 117u8, 109u8] && v@ !~=
                seq![112u8, 117u8, 98u8] && v@ !~= seq![99u8, 114u8, 97u8, 116u8, 101u8],
        },
{
    if v.len() == 2 && v[0] == 97 && v[1] == 115 {
        assert(v@ =~= seq![97u8, 115u8]);
        Some(Token::KwAs)
    } else if v.len() == 4 && v[0] == 101 && v[1] == 110 && v[2] == 117 && v[3] == 109 {
        assert(v@ =~= seq![101u8, 110u8, 117u8, 109u8]);
        Some(Token::KwEnum)
    } else if v.len() == 3 && v[0] == 112 && v[1] == 117 && v[2] == 98 {
        assert(v@ =~= seq![112u8, 117u8, 98u8]);
        Some(Token::KwPub)
    } else if v.len() == 5 && v[0] == 99 && v[1] == 114 && v[2] == 97 && v[3] == 116 && v[4] == 101 {
        assert(v@ =~= seq![99u8, 114u8, 97u8, 116u8, 101u8]);
        Some(Token::KwCrate)
    } else {
        proof {
            if v@ == seq![97u8, 115u8] {
                assert(v@.len() == 2 && v@[0] == 97u8 && v@[1] == 115u8);
            }
            if v@ == seq![101u8, 110u8, 117u8, 109u8] {
                assert(v@.len() == 4 && v@[0] == 101u8 && v@[1] == 110u8 && v@[2] == 117u8 && v@[3]
                    == 109u8);
            }
            if v@ == seq![112u8, 117u8, 98u8] {
                assert(v@.len() == 3 && v@[0] == 112u8 && v@[1] == 117u8 && v@[2] == 98u8);
            }
            if v@ == seq![99u8, 114u8, 97u8, 116u8, 101u8] {
                assert(v@.len() == 5 && v@[0] == 99u8 && v@[1] == 114u8 && v@[2] == 97u8 && v@[3]
                    == 116u8 && v@[4] == 101u8);
            }
        }
        None
    }
}

/// A scan that read non-quote bytes up to `j` settles where the string
/// body ends: at `j + 1` when a quote stands at `j`, nowhere when the
/// source ends first.
proof fn lemma_str_body_is(src: Seq<u8>, i: int, j: int)
    requires
        0 <= i <= j <= src.len(),
        forall|k: int| i <= k < j ==> (#[trigger] src[k]) != 34,
    ensures
        j < src.len() && src[j] == 34 ==> str_body_end(src, i) == Some(j + 1),
        j == src.len() ==> str_body_end(src, i) is None,
    decreases j - i,
{
    if i < j {
        lemma_str_body_is(src, i + 1, j);
    }
}

/// Scans a string body from `i` (just after the opening quote) up to
/// and including its closing quote; `None` when the string never
/// closes.
#[verifier::loop_isolation(false)]
fn lex_str_body(src: &[u8], i: usize) -> (r: Option<(Vec<u8>, usize)>)
    requires
        i <= src.len(),
    ensures
        r matches Some((v, j)) ==> str_body_end(src@, i as int) == Some(j as int) && v@
            == src@.subrange(i as int, j - 1),
        r is Some <==> str_body_end(src@, i as int) is Some,
{
    let mut out: Vec<u8> = Vec::new();
    let mut j: usize = i;
    while j < src.len() && src[j] != 34
        invariant
            i <= j <= src.len(),
            forall|k: int| i <= k < j ==> (#[trigger] src@[k]) != 34,
            out@ =~= src@.subrange(i as int, j as int),
        decreases src.len() - j,
    {
        out.push(src[j]);
        j += 1;
        assert(out@ =~= src@.subrange(i as int, j as int));
    }
    proof {
        lemma_str_body_is(src@, i as int, j as int);
    }
    if j < src.len() {
        assert(out@ =~= src@.subrange(i as int, (j + 1) - 1));
        Some((out, j + 1))
    } else {
        None
    }
}

/// Lexes the source from byte `i` on.
fn lex_from(src: &[u8], i: usize) -> (r: Result<Vec<Token>, SyntaxError>)
    requires
        i <= src.len(),
    ensures
        r is Ok <==> lexable(src@, i as int),
        r matches Ok(toks) ==> lex_rel(src@, i as int, toks@),
        r matches Err(e) ==> (e.kind == SyntaxErrorKind::UnexpectedByte || e.kind
            == SyntaxErrorKind::IntegerOverflow) && i <= e.pos < src.len(),
    decreases src.len() - i,
{
    if i >= src.len() {
        let toks: Vec<Token> = Vec::new();
        return Ok(toks);
    }
    let b = src[i];
    if b == 32 || b == 9 || b == 10 || b == 13 {
        return lex_from(src, i + 1);
    }
    // Scan one token ending at j.
    let (t, j): (Token, usize) = if (b >= 97 && b <= 122) || (b >= 65 && b <= 90) || b == 95 {
        let (name, j) = lex_ident(src, i);
        match keyword_of(&name) {
            Some(t) => {
                assert(token_rel(src@, i as int, t, j as int));
                (t, j)
            },
            None => {
                assert(token_rel(src@, i as int, Token::Ident(name), j as int));
                (Token::Ident(name), j)
            },
        }
    } else if b >= 48 && b <= 57 {
        // A `0x`, `0b` or `0o` prefix selects the literal's base.
        if b == 48 && i + 1 < src.len() && (src[i + 1] == 120 || src[i + 1] == 98 || src[i + 1]
            == 111) {
            let base: u64 = if src[i + 1] == 120 {
                16
            } else if src[i + 1] == 98 {
                2
            } else {
                8
            };
            if i + 2 < src.len() && is_lit_byte(base, src[i + 2]) {
                match lex_radix(src, i + 2, base) {
                    Some((v, j, saw)) => {
                        if saw {
                            assert(token_rel(src@, i as int, Token::Int(v), j as int));
                            (Token::Int(v), j)
                        } else {
                            // A literal of separators alone has no value.
                            return Err(
                                SyntaxError { pos: i, kind: SyntaxErrorKind::UnexpectedByte },
                            );
                        }
                    },
                    None => {
                        return Err(
                            SyntaxError { pos: i, kind: SyntaxErrorKind::IntegerOverflow },
                        );
                    },
                }
            } else {
                return Err(SyntaxError { pos: i, kind: SyntaxErrorKind::UnexpectedByte });
            }
        } else {
            match lex_radix(src, i, 10) {
                Some((v, j, _)) => {
                    assert(token_rel(src@, i as int, Token::Int(v), j as int));
                    (Token::Int(v), j)
                },
                None => {
                    return Err(SyntaxError { pos: i, kind: SyntaxErrorKind::IntegerOverflow });
                },
            }
        }
    } else if b == 123 {
        (Token::LBrace, i + 1)
    } else if b == 125 {
        (Token::RBrace, i + 1)
    } else if b == 91 {
        (Token::LBracket, i + 1)
    } else if b == 93 {
        (Token::RBracket, i + 1)
    } else if b == 44 {
        (Token::Comma, i + 1)
    } else if b == 35 {
        (Token::Pound, i + 1)
    } else if b == 33 {
        (Token::Bang, i + 1)
    } else if b == 58 {
        if i + 1 < src.len() && src[i + 1] == 58 {
            (Token::PathSep, i + 2)
        } else {
            (Token::Colon, i + 1)
        }
    } else if b == 61 {
        if i + 1 < src.len() && src[i + 1] == 62 {
            (Token::FatArrow, i + 2)
        } else {
            (Token::Eq, i + 1)
        }
    } else if b == 46 {
        if i + 1 < src.len() && src[i + 1] == 46 {
            if i + 2 < src.len() && src[i + 2] == 61 {
                (Token::DotDotEq, i + 3)
            } else {
                (Token::DotDot, i + 2)
            }
        } else {
            return Err(SyntaxError { pos: i, kind: SyntaxErrorKind::UnexpectedByte });
        }
    } else if b == 40 {
        (Token::LParen, i + 1)
    } else if b == 41 {
        (Token::RParen, i + 1)
    } else if b == 34 {
        match lex_str_body(src, i + 1) {
            Some((v, j)) => {
                assert(token_rel(src@, i as int, Token::Str(v), j as int));
                (Token::Str(v), j)
            },
            None => {
                return Err(SyntaxError { pos: i, kind: SyntaxErrorKind::UnexpectedByte });
            },
        }
    } else {
        return Err(SyntaxError { pos: i, kind: SyntaxErrorKind::UnexpectedByte });
    };
    assert(token_rel(src@, i as int, t, j as int));
    proof {
        lemma_token_end_bounds(src@, i as int);
    }
    let rest = match lex_from(src, j) {
        Ok(toks) => toks,
        Err(e) => {
            return Err(e);
        },
    };
    let mut toks = rest;
    toks.insert(0, t);
    assert(toks@.drop_first() =~= rest@);
    Ok(toks)
}

/// Lexes a whole compilation unit into its token stream.
///
/// Lexing succeeds exactly when the source consists of recognized
/// tokens and whitespace through to its end, and the stream then spells
/// the source token for token. The unit is rejected at the first byte
/// that starts no token and at the first integer literal beyond the
/// value type, with the byte offset in the error.
pub fn lex(src: &[u8]) -> (r: Result<Vec<Token>, SyntaxError>)
    ensures
        r is Ok <==> lexable(src@, 0),
        r matches Ok(toks) ==> lex_rel(src@, 0, toks@),
        r matches Err(e) ==> (e.kind == SyntaxErrorKind::UnexpectedByte || e.kind
            == SyntaxErrorKind::IntegerOverflow) && e.pos < src.len(),
{
    lex_from(src, 0)
}

impl Token {
    /// Whether this token is `KwAs`.
    pub fn is_kw_as(&self) -> (r: bool)
        ensures
            r == (*self is KwAs),
    {
        match self {
            Token::KwAs => true,
            _ => false,
        }
    }

    /// Whether this token is `KwEnum`.
    pub fn is_kw_enum(&self) -> (r: bool)
        ensures
            r == (*self is KwEnum),
    {
        match self {
            Token::KwEnum => true,
            _ => false,
        }
    }

    /// Whether this token is `KwPub`.
    pub fn is_kw_pub(&self) -> (r: bool)
        ensures
            r == (*self is KwPub),
    {
        match self {
            Token::KwPub => true,
            _ => false,
        }
    }

    /// Whether this token is `KwCrate`.
    pub fn is_kw_crate(&self) -> (r: bool)
        ensures
            r == (*self is KwCrate),
    {
        match self {
            Token::KwCrate => true,
            _ => false,
        }
    }

    /// Whether this token is `LBrace`.
    pub fn is_lbrace(&self) -> (r: bool)
        ensures
            r == (*self is LBrace),
    {
        match self {
            Token::LBrace => true,
            _ => false,
        }
    }

    /// Whether this token is `RBrace`.
    pub fn is_rbrace(&self) -> (r: bool)
        ensures
            r == (*self is RBrace),
    {
        match self {
            Token::RBrace => true,
            _ => false,
        }
    }

    /// Whether this token is `LBracket`.
    pub fn is_lbracket(&self) -> (r: bool)
        ensures
            r == (*self is LBracket),
    {
        match self {
            Token::LBracket => true,
            _ => false,
        }
    }

    /// Whether this token is `RBracket`.
    pub fn is_rbracket(&self) -> (r: bool)
        ensures
            r == (*self is RBracket),
    {
        match self {
            Token::RBracket => true,
            _ => false,
        }
    }

    /// Whether this token is `Colon`.
    pub fn is_colon(&self) -> (r: bool)
        ensures
            r == (*self is Colon),
    {
        match self {
            Token::Colon => true,
            _ => false,
        }
    }

    /// Whether this token is `PathSep`.
    pub fn is_path_sep(&self) -> (r: bool)
        ensures
            r == (*self is PathSep),
    {
        match self {
            Token::PathSep => true,
            _ => false,
        }
    }

    /// Whether this token is `Comma`.
    pub fn is_comma(&self) -> (r: bool)
        ensures
            r == (*self is Comma),
    {
        match self {
            Token::Comma => true,
            _ => false,
        }
    }

    /// Whether this token is `Eq`.
    pub fn is_eq_tok(&self) -> (r: bool)
        ensures
            r == (*self is Eq),
    {
        match self {
            Token::Eq => true,
            _ => false,
        }
    }

    /// Whether this token is `FatArrow`.
    pub fn is_fat_arrow(&self) -> (r: bool)
        ensures
            r == (*self is FatArrow),
    {
        match self {
            Token::FatArrow => true,
            _ => false,
        }
    }

    /// Whether this token is `Pound`.
    pub fn is_pound(&self) -> (r: bool)
        ensures
            r == (*self is Pound),
    {
        match self {
            Token::Pound => true,
            _ => false,
        }
    }

    /// Whether this token is `Bang`.
    pub fn is_bang(&self) -> (r: bool)
        ensures
            r == (*self is Bang),
    {
        match self {
            Token::Bang => true,
            _ => false,
        }
    }
}

} // verus!
