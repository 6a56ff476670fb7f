//! The lexer: raw token recognition and indentation synthesis.
//!
//! The input is a byte string.  Raw classification recognizes
//! identifiers, decimal and hex integers, floats, short and long strings,
//! comments, punctuation and whitespace; on top of that the lexer
//! maintains the off-side rule, emitting `INDENT` and `DEDENT` tokens by
//! comparing each line's leading spaces with a stack of indentation
//! levels.

use vstd::prelude::*;

use crate::location::Location;
use crate::text::bytes_eq;
use crate::token::{SpannedToken, Token};

verus! {

/// An error found while turning bytes into tokens.
#[derive(Debug)]
pub struct LexicalError {
    pub msg: String,
    pub location: Location,
}

/// Whether `b` is an ASCII letter.
pub open spec fn is_letter(b: u8) -> bool {
    (0x41 <= b <= 0x5a) || (0x61 <= b <= 0x7a)
}

/// Whether `b` is an ASCII decimal digit.
pub open spec fn is_digit(b: u8) -> bool {
    0x30 <= b <= 0x39
}

/// Whether `b` is an ASCII hexadecimal digit.
pub open spec fn is_hex_digit(b: u8) -> bool {
    is_digit(b) || (0x41 <= b <= 0x46) || (0x61 <= b <= 0x66)
}

fn letter(b: u8) -> (r: bool)
    ensures
        r == is_letter(b),
{
    (0x41 <= b && b <= 0x5a) || (0x61 <= b && b <= 0x7a)
}

fn digit(b: u8) -> (r: bool)
    ensures
        r == is_digit(b),
{
    0x30 <= b && b <= 0x39
}

fn hex_digit(b: u8) -> (r: bool)
    ensures
        r == is_hex_digit(b),
{
    digit(b) || (0x41 <= b && b <= 0x46) || (0x61 <= b && b <= 0x66)
}

/// The numeric value of a hexadecimal digit byte.
fn hex_value(b: u8) -> (r: u8)
    requires
        is_hex_digit(b),
    ensures
        r == hex_digit_value(b),
{
    if 0x30 <= b && b <= 0x39 {
        b - 0x30
    } else if 0x41 <= b && b <= 0x46 {
        b - 0x41 + 10
    } else {
        b - 0x61 + 10
    }
}

/// The closed keyword set: which keyword token a name denotes, if any.
pub open spec fn spec_keyword(name: Seq<u8>) -> Option<Token> {
    if name == seq![0x61u8, 0x6eu8, 0x64u8] {
        Some(Token::KeywordAnd)
    } else if name == seq![0x62u8, 0x72u8, 0x65u8, 0x61u8, 0x6bu8] {
        Some(Token::KeywordBreak)
    } else if name == seq![0x63u8, 0x6cu8, 0x61u8, 0x73u8, 0x73u8] {
        Some(Token::KeywordClass)
    } else if name == seq![0x63u8, 0x6fu8, 0x6eu8, 0x74u8, 0x69u8, 0x6eu8, 0x75u8, 0x65u8] {
        Some(Token::KeywordContinue)
    } else if name == seq![0x64u8, 0x65u8, 0x66u8] {
        Some(Token::KeywordDef)
    } else if name == seq![0x65u8, 0x6cu8, 0x73u8, 0x65u8] {
        Some(Token::KeywordElse)
    } else if name == seq![0x66u8, 0x6fu8, 0x72u8] {
        Some(Token::KeywordFor)
    } else if name == seq![0x66u8, 0x72u8, 0x6fu8, 0x6du8] {
        Some(Token::KeywordFrom)
    } else if name == seq![0x69u8, 0x66u8] {
        Some(Token::KeywordIf)
    } else if name == seq![0x69u8, 0x6du8, 0x70u8, 0x6fu8, 0x72u8, 0x74u8] {
        Some(Token::KeywordImport)
    } else if name == seq![0x69u8, 0x6eu8] {
        Some(Token::KeywordIn)
    } else if name == seq![0x6fu8, 0x72u8] {
        Some(Token::KeywordOr)
    } else if name == seq![0x70u8, 0x61u8, 0x73u8, 0x73u8] {
        Some(Token::KeywordPass)
    } else if name == seq![0x72u8, 0x65u8, 0x74u8, 0x75u8, 0x72u8, 0x6eu8] {
        Some(Token::KeywordReturn)
    } else if name == seq![0x77u8, 0x68u8, 0x69u8, 0x6cu8, 0x65u8] {
        Some(Token::KeywordWhile)
    } else {
        None
    }
}

/// Recognize a keyword; identifiers are post-filtered against the closed
/// keyword set.
fn keyword_for(name: &[u8]) -> (r: Option<Token>)
    ensures
        r == spec_keyword(name@),
        r matches Some(t) ==> token_delta(t) == 0,
{
    let kw_and: Vec<u8> = vec![0x61, 0x6e, 0x64];  // and
    let kw_break: Vec<u8> = vec![0x62, 0x72, 0x65, 0x61, 0x6b];  // break
    let kw_class: Vec<u8> = vec![0x63, 0x6c, 0x61, 0x73, 0x73];  // class
    let kw_continue: Vec<u8> = vec![0x63, 0x6f, 0x6e, 0x74, 0x69, 0x6e, 0x75, 0x65];  // continue
    let kw_def: Vec<u8> = vec![0x64, 0x65, 0x66];  // def
    let kw_else: Vec<u8> = vec![0x65, 0x6c, 0x73, 0x65];  // else
    let kw_for: Vec<u8> = vec![0x66, 0x6f, 0x72];  // for
    let kw_from: Vec<u8> = vec![0x66, 0x72, 0x6f, 0x6d];  // from
    let kw_if: Vec<u8> = vec![0x69, 0x66];  // if
    let kw_import: Vec<u8> = vec![0x69, 0x6d, 0x70, 0x6f, 0x72, 0x74];  // import
    let kw_in: Vec<u8> = vec![0x69, 0x6e];  // in
    let kw_or: Vec<u8> = vec![0x6f, 0x72];  // or
    let kw_pass: Vec<u8> = vec![0x70, 0x61, 0x73, 0x73];  // pass
    let kw_return: Vec<u8> = vec![0x72, 0x65, 0x74, 0x75, 0x72, 0x6e];  // return
    let kw_while: Vec<u8> = vec![0x77, 0x68, 0x69, 0x6c, 0x65];  // while
    if bytes_eq(name, kw_and.as_slice()) {
        Some(Token::KeywordAnd)
    } else if bytes_eq(name, kw_break.as_slice()) {
        Some(Token::KeywordBreak)
    } else if bytes_eq(name, kw_class.as_slice()) {
        Some(Token::KeywordClass)
    } else if bytes_eq(name, kw_continue.as_slice()) {
        Some(Token::KeywordContinue)
    } else if bytes_eq(name, kw_def.as_slice()) {
        Some(Token::KeywordDef)
    } else if bytes_eq(name, kw_else.as_slice()) {
        Some(Token::KeywordElse)
    } else if bytes_eq(name, kw_for.as_slice()) {
        Some(Token::KeywordFor)
    } else if bytes_eq(name, kw_from.as_slice()) {
        Some(Token::KeywordFrom)
    } else if bytes_eq(name, kw_if.as_slice()) {
        Some(Token::KeywordIf)
    } else if bytes_eq(name, kw_import.as_slice()) {
        Some(Token::KeywordImport)
    } else if bytes_eq(name, kw_in.as_slice()) {
        Some(Token::KeywordIn)
    } else if bytes_eq(name, kw_or.as_slice()) {
        Some(Token::KeywordOr)
    } else if bytes_eq(name, kw_pass.as_slice()) {
        Some(Token::KeywordPass)
    } else if bytes_eq(name, kw_return.as_slice()) {
        Some(Token::KeywordReturn)
    } else if bytes_eq(name, kw_while.as_slice()) {
        Some(Token::KeywordWhile)
    } else {
        proof {
            assert(kw_and@ =~= seq![0x61u8, 0x6eu8, 0x64u8]);
            assert(kw_break@ =~= seq![0x62u8, 0x72u8, 0x65u8, 0x61u8, 0x6bu8]);
            assert(kw_class@ =~= seq![0x63u8, 0x6cu8, 0x61u8, 0x73u8, 0x73u8]);
            assert(kw_continue@ =~= seq![
                0x63u8, 0x6fu8, 0x6eu8, 0x74u8, 0x69u8, 0x6eu8, 0x75u8, 0x65u8,
            ]);
            assert(kw_def@ =~= seq![0x64u8, 0x65u8, 0x66u8]);
            assert(kw_else@ =~= seq![0x65u8, 0x6cu8, 0x73u8, 0x65u8]);
            assert(kw_for@ =~= seq![0x66u8, 0x6fu8, 0x72u8]);
            assert(kw_from@ =~= seq![0x66u8, 0x72u8, 0x6fu8, 0x6du8]);
            assert(kw_if@ =~= seq![0x69u8, 0x66u8]);
            assert(kw_import@ =~= seq![0x69u8, 0x6du8, 0x70u8, 0x6fu8, 0x72u8, 0x74u8]);
            assert(kw_in@ =~= seq![0x69u8, 0x6eu8]);
            assert(kw_or@ =~= seq![0x6fu8, 0x72u8]);
            assert(kw_pass@ =~= seq![0x70u8, 0x61u8, 0x73u8, 0x73u8]);
            assert(kw_return@ =~= seq![0x72u8, 0x65u8, 0x74u8, 0x75u8, 0x72u8, 0x6eu8]);
            assert(kw_while@ =~= seq![0x77u8, 0x68u8, 0x69u8, 0x6cu8, 0x65u8]);
        }
        None
    }
}

/// The bit pattern of positive infinity.
const INFINITY_BITS: u64 = 0x7ff0000000000000;

/// Whether every byte of a digit run is the digit zero.
pub open spec fn all_zero_digits(digits: Seq<u8>) -> bool {
    forall|i: int| 0 <= i < digits.len() ==> digits[i] == 0x30
}

/// Interpret `int_digits.frac_digits` as a binary64 value and return its
/// bit pattern.
///
/// The conversion runs in fixed-point integer arithmetic with at least
/// 100 bits of precision and rounds to nearest, ties to even; an input
/// whose value lies within a few units of 2^-100 of a rounding boundary
/// may round differently in the last place.  A literal denoting zero is
/// guaranteed to give positive zero.
fn float_bits(int_digits: &[u8], frac_digits: &[u8]) -> (r: u64)
    requires
        forall|i: int| 0 <= i < int_digits@.len() ==> is_digit(int_digits@[i]),
        forall|i: int| 0 <= i < frac_digits@.len() ==> is_digit(frac_digits@[i]),
    ensures
        (all_zero_digits(int_digits@) && all_zero_digits(frac_digits@)) ==> r == 0,
{
    // Strip leading zeros of the integer part.
    let mut start: usize = 0;
    let ni = int_digits.len();
    while start < ni && int_digits[start] == 0x30
        invariant
            start <= ni,
            ni == int_digits@.len(),
        decreases ni - start,
    {
        start = start + 1;
    }
    if ni - start > 320 {
        // More than 320 significant integer digits: far beyond the
        // largest finite double.
        return INFINITY_BITS;
    }
    // Accumulate the integer part as m * 2^exp with m kept below 2^124.
    let mut m: u128 = 0;
    let mut exp: i64 = 0;
    let mut i = start;
    while i < ni
        invariant
            start <= i <= ni,
            ni == int_digits@.len(),
            ni - start <= 320,
            forall|k: int| 0 <= k < int_digits@.len() ==> is_digit(int_digits@[k]),
            m < 0x10000000000000000000000000000000,
            0 <= exp <= 4 * (i - start),
            all_zero_digits(int_digits@) ==> (m == 0 && exp == 0),
        decreases ni - i,
    {
        let mut guard: usize = 0;
        while m >= 0x1000000000000000000000000000000 && guard < 4
            invariant
                guard <= 4,
                start <= i <= ni,
                ni - start <= 320,
                0 <= exp <= 4 * (i - start) + guard,
                m < 0x10000000000000000000000000000000,
                all_zero_digits(int_digits@) ==> (m == 0 && exp == 0),
            decreases 4 - guard,
        {
            m = m / 2;
            exp = exp + 1;
            guard = guard + 1;
        }
        let d = int_digits[i] - 0x30;
        if m < 0x1000000000000000000000000000000 {
            if exp == 0 {
                m = m * 10 + d as u128;
            } else {
                m = m * 10;
            }
        }
        i = i + 1;
    }
    // Fraction, scaled to 64 fractional bits.
    let mut x: u128 = 0;
    let mut e2: i64 = -64;
    let mut use_fraction = false;
    if exp == 0 && m < 0x8000000000000000 {
        use_fraction = true;
        let nf = frac_digits.len();
        let mut zeros: usize = 0;
        if m == 0 {
            // Pre-scale a pure fraction: skip its leading zeros and
            // account for them as divisions by ten afterwards.
            while zeros < nf && frac_digits[zeros] == 0x30
                invariant
                    zeros <= nf,
                    nf == frac_digits@.len(),
                decreases nf - zeros,
            {
                zeros = zeros + 1;
            }
            if zeros > 400 {
                // Smaller than any subnormal double.
                return 0;
            }
        }
        let mut j = nf;
        while j > zeros
            invariant
                zeros <= j <= nf,
                nf == frac_digits@.len(),
                x < 0x100000000000000000000000000,
                forall|k: int| 0 <= k < frac_digits@.len() ==> is_digit(frac_digits@[k]),
                all_zero_digits(frac_digits@) ==> x == 0,
            decreases j,
        {
            j = j - 1;
            let d = frac_digits[j] - 0x30;
            if x <= 0xffffffffffffffffffffffffff {
                x = (x + (d as u128) * 0x10000000000000000) / 10;
            } else {
                x = x / 10;
            }
        }
        // Apply the skipped leading zeros: divide by ten, renormalizing
        // to keep about 100 bits of precision.
        let mut z: usize = 0;
        while z < zeros
            invariant
                z <= zeros,
                zeros <= 400,
                x < 0x100000000000000000000000000,
                -64 - 37 * (z as i64) <= e2 <= -64,
                all_zero_digits(frac_digits@) ==> x == 0,
            decreases zeros - z,
        {
            let mut widen: usize = 0;
            while x != 0 && x < 0x10000000000000000000000000 && widen < 37
                invariant
                    widen <= 37,
                    z < zeros <= 400,
                    x < 0x100000000000000000000000000,
                    -64 - 37 * (z as i64) - (widen as i64) <= e2 <= -64,
                    all_zero_digits(frac_digits@) ==> x == 0,
                decreases 37 - widen,
            {
                x = x * 2;
                e2 = e2 - 1;
                widen = widen + 1;
            }
            x = x / 10;
            z = z + 1;
        }
    }
    // Combine integer and fraction into mantissa * 2^exponent.
    let mantissa: u128;
    let exponent: i64;
    if use_fraction {
        if m == 0 {
            mantissa = x;
            exponent = e2;
        } else {
            // Here m < 2^63 and the fraction kept its scale of 2^-64, so
            // the combined value fits in 128 bits.
            mantissa = m * 0x10000000000000000 + x;
            exponent = -64;
        }
    } else {
        mantissa = m;
        exponent = exp;
    }
    if mantissa == 0 {
        return 0;
    }
    // Bit length of the mantissa.
    let mut bl: i64 = 0;
    let mut t = mantissa;
    while t > 0
        invariant
            0 <= bl <= 128,
            !(all_zero_digits(int_digits@) && all_zero_digits(frac_digits@)),
        decreases t,
    {
        t = t / 2;
        if bl < 128 {
            bl = bl + 1;
        }
    }
    let real_exp: i64 = exponent + bl - 1;
    if real_exp > 1023 {
        return INFINITY_BITS;
    }
    if real_exp < -1075 {
        return 0;
    }
    // Keep 53 bits for normal values; fewer for subnormals.
    let keep_bits: i64 = if real_exp >= -1022 {
        53
    } else {
        53 - (-1022 - real_exp)
    };
    if keep_bits <= 0 {
        return 0;
    }
    let shift: i64 = bl - keep_bits;
    let mut keep: u128;
    let mut round_up = false;
    if shift > 0 {
        let s: u32 = if shift > 127 {
            127
        } else {
            shift as u32
        };
        keep = mantissa >> s;
        let round_bit = (mantissa >> (s - 1)) & 1;
        let sticky = ((mantissa >> (s - 1)) << (s - 1)) != mantissa;
        if round_bit == 1 && (sticky || keep & 1 == 1) {
            round_up = true;
        }
    } else {
        let s: u32 = if 0 - shift > 127 {
            127
        } else {
            (0 - shift) as u32
        };
        if s == 0 {
            keep = mantissa;
        } else if mantissa <= u128::MAX >> s {
            keep = mantissa << s;
        } else {
            keep = mantissa;
        }
    }
    if round_up && keep < u128::MAX {
        keep = keep + 1;
    }
    if real_exp >= -1022 {
        // Normal: a rounding carry into the 54th bit bumps the exponent.
        let mut final_exp = real_exp;
        if keep >= 0x20000000000000 {
            keep = keep / 2;
            final_exp = final_exp + 1;
        }
        if final_exp > 1023 {
            return INFINITY_BITS;
        }
        let biased = (final_exp + 1023) as u64;
        let mantissa_field = #[verifier::truncate] ((keep & 0xfffffffffffff) as u64);
        (biased << 52) | mantissa_field
    } else {
        // Subnormal: the mantissa field carries the value directly; a
        // carry into bit 52 lands on the smallest normal by encoding.
        if keep > 0xffffffffffffffff {
            return INFINITY_BITS;
        }
        keep as u64
    }
}

} // verus!

verus! {

/// The value of a run of decimal digit bytes.
pub open spec fn dec_value(digits: Seq<u8>) -> int
    decreases digits.len(),
{
    if digits.len() == 0 {
        0
    } else {
        dec_value(digits.drop_last()) * 10 + (digits.last() - 0x30)
    }
}

/// The value of a run of hexadecimal digit bytes.
pub open spec fn hex_digit_value(b: u8) -> int {
    if 0x30 <= b <= 0x39 {
        b - 0x30
    } else if 0x41 <= b <= 0x46 {
        b - 0x41 + 10
    } else {
        b - 0x61 + 10
    }
}

/// The value of a run of hexadecimal digit bytes.
pub open spec fn hex_value_of(digits: Seq<u8>) -> int
    decreases digits.len(),
{
    if digits.len() == 0 {
        0
    } else {
        hex_value_of(digits.drop_last()) * 16 + hex_digit_value(digits.last())
    }
}

/// Parse a run of decimal digits; `None` when the value exceeds `i32`.
fn parse_decimal(digits: &[u8]) -> (r: Option<i32>)
    requires
        forall|i: int| 0 <= i < digits@.len() ==> is_digit(digits@[i]),
    ensures
        r matches Some(v) ==> v == dec_value(digits@),
{
    let n = digits.len();
    let mut acc: u64 = 0;
    let mut i: usize = 0;
    while i < n
        invariant
            i <= n,
            n == digits@.len(),
            forall|k: int| 0 <= k < digits@.len() ==> is_digit(digits@[k]),
            acc <= 0x7fffffff,
            acc == dec_value(digits@.subrange(0, i as int)),
        decreases n - i,
    {
        let d = digits[i] - 0x30;
        acc = acc * 10 + d as u64;
        proof {
            assert(digits@.subrange(0, i + 1).drop_last() =~= digits@.subrange(0, i as int));
            assert(digits@.subrange(0, i + 1).last() == digits@[i as int]);
        }
        if acc > 0x7fffffff {
            return None;
        }
        i = i + 1;
    }
    proof {
        assert(digits@.subrange(0, n as int) =~= digits@);
    }
    Some(acc as i32)
}

/// Parse a run of hexadecimal digits; `None` when the value exceeds
/// `i32`.
fn parse_hex(digits: &[u8]) -> (r: Option<i32>)
    requires
        forall|i: int| 0 <= i < digits@.len() ==> is_hex_digit(digits@[i]),
    ensures
        r matches Some(v) ==> v == hex_value_of(digits@),
{
    let n = digits.len();
    let mut acc: u64 = 0;
    let mut i: usize = 0;
    while i < n
        invariant
            i <= n,
            n == digits@.len(),
            forall|k: int| 0 <= k < digits@.len() ==> is_hex_digit(digits@[k]),
            acc <= 0x7fffffff,
            acc == hex_value_of(digits@.subrange(0, i as int)),
        decreases n - i,
    {
        let d = hex_value(digits[i]);
        acc = acc * 16 + d as u64;
        proof {
            assert(digits@.subrange(0, i + 1).drop_last() =~= digits@.subrange(0, i as int));
            assert(digits@.subrange(0, i + 1).last() == digits@[i as int]);
        }
        if acc > 0x7fffffff {
            return None;
        }
        i = i + 1;
    }
    proof {
        assert(digits@.subrange(0, n as int) =~= digits@);
    }
    Some(acc as i32)
}

/// How a token changes the nesting of synthetic indentation.
pub open spec fn token_delta(t: Token) -> int {
    match t {
        Token::Indent => 1,
        Token::Dedent => -1,
        _ => 0,
    }
}

/// The number of unmatched `INDENT`s after the first `i` tokens.
pub open spec fn ind_depth(toks: Seq<SpannedToken>, i: int) -> int
    decreases i,
{
    if i <= 0 {
        0
    } else {
        ind_depth(toks, i - 1) + token_delta(toks[i - 1].token)
    }
}

/// The depth of a prefix depends only on the tokens of that prefix.
proof fn lemma_ind_depth_prefix(a: Seq<SpannedToken>, b: Seq<SpannedToken>, i: int)
    requires
        0 <= i <= a.len(),
        i <= b.len(),
        forall|j: int| 0 <= j < i ==> a[j] == b[j],
    ensures
        ind_depth(a, i) == ind_depth(b, i),
    decreases i,
{
    if i > 0 {
        lemma_ind_depth_prefix(a, b, i - 1);
    }
}

/// Every prefix of the token stream closes no more blocks than it opened.
pub open spec fn depths_nonneg(toks: Seq<SpannedToken>) -> bool {
    forall|i: int| 0 <= i <= toks.len() ==> ind_depth(toks, i) >= 0
}

} // verus!

verus! {

/// Turns the source bytes into a token stream, maintaining the off-side
/// rule with a stack of indentation levels that always keeps `0` at its
/// bottom.
pub struct MyLexer {
    source: Vec<u8>,
    pos: usize,
    parenthesis_level: usize,
    spaces: usize,
    row: usize,
    column_offset: usize,
    indentations: Vec<usize>,
    at_bol: bool,
    tokens: Vec<SpannedToken>,
}

impl MyLexer {
    /// The lexer's running invariant: the indentation stack is non-empty
    /// with `0` at the bottom, the bookkeeping offsets stay within the
    /// source, and the tokens emitted so far keep every prefix's
    /// indentation depth non-negative and equal, at the end, to the stack
    /// depth minus one.
    pub closed spec fn wf(&self) -> bool {
        &&& self.indentations@.len() >= 1
        &&& self.indentations@[0] == 0
        &&& self.source@.len() < usize::MAX
        &&& self.pos <= self.source@.len()
        &&& self.column_offset <= self.pos
        &&& self.spaces <= self.pos
        &&& self.row <= self.pos + 1
        &&& self.parenthesis_level <= self.pos + 1
        &&& ind_depth(self.tokens@, self.tokens@.len() as int) == self.indentations@.len() - 1
        &&& depths_nonneg(self.tokens@)
    }

    /// Whether the source is too large to track byte offsets; such an
    /// input is rejected before scanning starts.
    pub closed spec fn oversized(&self) -> bool {
        self.source@.len() >= usize::MAX
    }

    /// Scanning has consumed at least one byte per bracket opened.
    pub closed spec fn scan_ready(&self) -> bool {
        self.parenthesis_level <= self.pos
    }

    /// A fresh lexer over empty input.
    pub closed spec fn has_no_input(&self) -> bool {
        &&& self.source@.len() == 0
        &&& self.pos == 0
        &&& self.tokens@.len() == 0
        &&& self.indentations@.len() == 1
    }

    pub fn new(txt: &str) -> (r: MyLexer)
        ensures
            r.wf() || r.oversized(),
            r.scan_ready(),
            txt@.len() == 0 ==> r.has_no_input(),
    {
        let source = vstd::slice::slice_to_vec(txt.as_bytes());
        MyLexer {
            source,
            pos: 0,
            parenthesis_level: 0,
            spaces: 0,
            row: 1,
            column_offset: 0,
            indentations: vec![0],
            at_bol: true,
            tokens: Vec::new(),
        }
    }

    /// The location of a byte offset on the current row.
    fn get_location(&self, offset: usize) -> (r: Location)
        requires
            self.wf(),
            self.column_offset <= offset <= self.source@.len(),
        ensures
            r.row == self.row,
    {
        let column = offset - self.column_offset + 1;
        Location { row: self.row, column }
    }

    /// Append one ordinary token with its source span.
    fn emit_spanned(&mut self, token: Token, start: usize, end: usize)
        requires
            old(self).wf(),
            token_delta(token) == 0,
            old(self).column_offset <= start <= old(self).source@.len(),
            old(self).column_offset <= end <= old(self).source@.len(),
        ensures
            final(self).wf(),
            *final(self) == (MyLexer { tokens: final(self).tokens, ..*old(self) }),
            final(self).tokens@.len() == old(self).tokens@.len() + 1,
    {
        let spanned = SpannedToken {
            start: self.get_location(start),
            token,
            end: self.get_location(end),
        };
        let ghost old_tokens = self.tokens@;
        self.tokens.push(spanned);
        proof {
            lemma_ind_depth_prefix(self.tokens@, old_tokens, old_tokens.len() as int);
            assert forall|i: int| 0 <= i <= self.tokens@.len() implies ind_depth(self.tokens@, i)
                >= 0 by {
                if i <= old_tokens.len() {
                    lemma_ind_depth_prefix(self.tokens@, old_tokens, i);
                }
            }
        }
    }

    /// The innermost indentation level.
    fn get_current_indentation(&self) -> (r: usize)
        requires
            self.wf(),
        ensures
            r == self.indentations@.last(),
    {
        self.indentations[self.indentations.len() - 1]
    }

    /// Open one indented block.
    fn indent(&mut self, new_indentation: usize, location: Location)
        requires
            old(self).wf(),
        ensures
            final(self).wf(),
            *final(self) == (MyLexer {
                tokens: final(self).tokens,
                indentations: final(self).indentations,
                ..*old(self)
            }),
            final(self).indentations@ == old(self).indentations@.push(new_indentation),
    {
        self.indentations.push(new_indentation);
        let spanned = SpannedToken { start: location, token: Token::Indent, end: location };
        let ghost old_tokens = self.tokens@;
        self.tokens.push(spanned);
        proof {
            lemma_ind_depth_prefix(self.tokens@, old_tokens, old_tokens.len() as int);
            assert forall|i: int| 0 <= i <= self.tokens@.len() implies ind_depth(self.tokens@, i)
                >= 0 by {
                if i <= old_tokens.len() {
                    lemma_ind_depth_prefix(self.tokens@, old_tokens, i);
                }
            }
        }
    }

    /// Close one indented block.
    fn dedent(&mut self, location: Location)
        requires
            old(self).wf(),
            old(self).indentations@.len() >= 2,
        ensures
            final(self).wf(),
            *final(self) == (MyLexer {
                tokens: final(self).tokens,
                indentations: final(self).indentations,
                ..*old(self)
            }),
            final(self).indentations@ == old(self).indentations@.drop_last(),
    {
        let spanned = SpannedToken { start: location, token: Token::Dedent, end: location };
        let ghost old_tokens = self.tokens@;
        self.tokens.push(spanned);
        let _ = self.indentations.pop();
        proof {
            lemma_ind_depth_prefix(self.tokens@, old_tokens, old_tokens.len() as int);
            assert forall|i: int| 0 <= i <= self.tokens@.len() implies ind_depth(self.tokens@, i)
                >= 0 by {
                if i <= old_tokens.len() {
                    lemma_ind_depth_prefix(self.tokens@, old_tokens, i);
                }
            }
        }
    }

    /// Compare the new line's indentation with the stack and emit the
    /// matching `INDENT` or `DEDENT`s; a dedent that stops between two
    /// known levels is an indentation error.
    fn update_indentation(&mut self, new_indentation: usize) -> (r: Result<(), LexicalError>)
        requires
            old(self).wf(),
        ensures
            final(self).wf(),
            *final(self) == (MyLexer {
                tokens: final(self).tokens,
                indentations: final(self).indentations,
                ..*old(self)
            }),
            r matches Err(e) ==> e.location.row == old(self).row,
    {
        let location = Location { row: self.row, column: 1 };
        let current = self.get_current_indentation();
        if new_indentation > current {
            self.indent(new_indentation, location);
        } else if new_indentation < current {
            while new_indentation < self.get_current_indentation()
                invariant
                    self.wf(),
                    *self == (MyLexer {
                        tokens: self.tokens,
                        indentations: self.indentations,
                        ..*old(self)
                    }),
                decreases self.indentations@.len(),
            {
                proof {
                    assert(self.indentations@.last() != self.indentations@[0]);
                    assert(self.indentations@.len() >= 2);
                }
                self.dedent(location);
            }
            if new_indentation != self.get_current_indentation() {
                return Err(
                    LexicalError { msg: "Indentation error.".to_owned(), location },
                );
            }
        }
        Ok(())
    }

    /// Append one token, synthesizing indentation tokens first when this
    /// is the first token of a line outside brackets.
    fn emit(&mut self, token: Token, start: usize, end: usize) -> (r: Result<(), LexicalError>)
        requires
            old(self).wf(),
            token_delta(token) == 0,
            old(self).column_offset <= start <= old(self).source@.len(),
            old(self).column_offset <= end <= old(self).source@.len(),
        ensures
            final(self).wf(),
            final(self).source@ == old(self).source@,
            final(self).pos == old(self).pos,
            final(self).column_offset == old(self).column_offset,
            final(self).spaces == old(self).spaces,
            final(self).row == old(self).row,
            final(self).parenthesis_level == old(self).parenthesis_level,
            r matches Err(e) ==> e.location.row == old(self).row,
    {
        if self.at_bol && self.parenthesis_level == 0 {
            self.at_bol = false;
            let new_indentation = self.spaces;
            match self.update_indentation(new_indentation) {
                Ok(()) => {},
                Err(e) => {
                    return Err(e);
                },
            }
        }
        self.emit_spanned(token, start, end);
        Ok(())
    }

    /// Handle the end of a physical line: emit a `NEWLINE` unless the
    /// line held nothing, then reset the line bookkeeping.
    fn newline(&mut self, start: usize, end: usize)
        requires
            old(self).wf(),
            old(self).column_offset <= start < end <= old(self).source@.len(),
            old(self).pos < end,
        ensures
            final(self).wf(),
            final(self).source@ == old(self).source@,
            final(self).pos == end,
            final(self).column_offset == end,
            final(self).spaces == 0,
            final(self).row == old(self).row + 1,
            final(self).at_bol,
            final(self).parenthesis_level == old(self).parenthesis_level,
            final(self).indentations@ == old(self).indentations@,
    {
        if !self.at_bol {
            self.emit_spanned(Token::NewLine, start, end);
        }
        self.at_bol = true;
        self.column_offset = end;
        self.spaces = 0;
        self.row = self.row + 1;
        self.pos = end;
    }
}

} // verus!

verus! {

impl MyLexer {
    /// Scan the whole source into a token stream.
    ///
    /// On success, every prefix of the stream closes no more indented
    /// blocks than it opened, and at the end of input every opened block
    /// has been closed: the `INDENT`s and `DEDENT`s balance exactly.
    pub fn tokenize(self) -> (r: Result<Vec<SpannedToken>, LexicalError>)
        requires
            self.wf() || self.oversized(),
            self.scan_ready(),
        ensures
            r matches Ok(toks) ==> {
                &&& depths_nonneg(toks@)
                &&& ind_depth(toks@, toks@.len() as int) == 0
            },
            self.has_no_input() ==> (r matches Ok(toks) && toks@.len() == 0),
    {
        let mut this = self;
        let n = this.source.len();
        if n == usize::MAX {
            return Err(
                LexicalError {
                    msg: "Source too large".to_owned(),
                    location: Location { row: 1, column: 1 },
                },
            );
        }
        while this.pos < n
            invariant
                this.wf(),
                this.parenthesis_level <= this.pos,
                n == this.source@.len(),
                n < usize::MAX,
                self.has_no_input() ==> (n == 0 && this.tokens@.len() == 0
                    && this.indentations@.len() == 1),
            decreases n - this.pos,
        {
            let c = this.source[this.pos];
            let start = this.pos;
            if letter(c) {
                let mut end = start + 1;
                while end < n && letter(this.source[end])
                    invariant
                        start < end <= n,
                        n == this.source@.len(),
                        this.wf(),
                        this.pos == start,
                    decreases n - end,
                {
                    end = end + 1;
                }
                let name = vstd::slice::slice_to_vec(&this.source[start..end]);
                let token = match keyword_for(name.as_slice()) {
                    Some(t) => t,
                    None => Token::Identifier { value: name },
                };
                match this.emit(token, start, end) {
                    Ok(()) => {},
                    Err(e) => {
                        return Err(e);
                    },
                }
                this.pos = end;
            } else if digit(c) {
                let mut dend = start + 1;
                while dend < n && digit(this.source[dend])
                    invariant
                        start < dend <= n,
                        n == this.source@.len(),
                        this.wf(),
                        this.pos == start,
                        forall|k: int| start <= k < dend ==> is_digit(this.source@[k]),
                    decreases n - dend,
                {
                    dend = dend + 1;
                }
                if dend == start + 1 && c == 0x30 && dend < n && this.source[dend] == 0x78 && dend
                    + 1 < n && hex_digit(this.source[dend + 1]) {
                    // Hex integer: 0x followed by hex digits.
                    let mut hend = dend + 2;
                    while hend < n && hex_digit(this.source[hend])
                        invariant
                            dend + 2 <= hend <= n,
                            n == this.source@.len(),
                            this.wf(),
                            this.pos == start,
                            start + 2 == dend + 1,
                            forall|k: int| dend + 1 <= k < hend ==> is_hex_digit(this.source@[k]),
                        decreases n - hend,
                    {
                        hend = hend + 1;
                    }
                    let digits = &this.source[dend + 1..hend];
                    let value = match parse_hex(digits) {
                        Some(v) => v,
                        None => {
                            return Err(
                                LexicalError {
                                    msg: "Number too large".to_owned(),
                                    location: this.get_location(start),
                                },
                            );
                        },
                    };
                    match this.emit(Token::Number { value }, start, hend) {
                        Ok(()) => {},
                        Err(e) => {
                            return Err(e);
                        },
                    }
                    this.pos = hend;
                } else if dend < n && this.source[dend] == 0x2e && dend + 1 < n && digit(
                    this.source[dend + 1],
                ) {
                    // Float: digits, a point, digits.
                    let mut fend = dend + 2;
                    while fend < n && digit(this.source[fend])
                        invariant
                            dend + 2 <= fend <= n,
                            n == this.source@.len(),
                            this.wf(),
                            this.pos == start,
                            forall|k: int| dend + 1 <= k < fend ==> is_digit(this.source@[k]),
                        decreases n - fend,
                    {
                        fend = fend + 1;
                    }
                    let int_digits = &this.source[start..dend];
                    let frac_digits = &this.source[dend + 1..fend];
                    let bits = float_bits(int_digits, frac_digits);
                    match this.emit(Token::Float { bits }, start, fend) {
                        Ok(()) => {},
                        Err(e) => {
                            return Err(e);
                        },
                    }
                    this.pos = fend;
                } else {
                    let digits = &this.source[start..dend];
                    let value = match parse_decimal(digits) {
                        Some(v) => v,
                        None => {
                            return Err(
                                LexicalError {
                                    msg: "Invalid character!".to_owned(),
                                    location: this.get_location(start),
                                },
                            );
                        },
                    };
                    match this.emit(Token::Number { value }, start, dend) {
                        Ok(()) => {},
                        Err(e) => {
                            return Err(e);
                        },
                    }
                    this.pos = dend;
                }
            } else if c == 0x22 {
                // Long string: three quotes, content, three quotes, all on
                // one line, greedy to the last closing quotes.
                if !(start + 2 < n && this.source[start + 1] == 0x22 && this.source[start + 2]
                    == 0x22) {
                    return Err(
                        LexicalError {
                            msg: "Invalid character!".to_owned(),
                            location: this.get_location(start),
                        },
                    );
                }
                let mut lineend = start + 3;
                while lineend < n && this.source[lineend] != 0x0a
                    invariant
                        start + 3 <= lineend <= n,
                        n == this.source@.len(),
                        this.wf(),
                        this.pos == start,
                    decreases n - lineend,
                {
                    lineend = lineend + 1;
                }
                let mut close: usize = 0;
                let mut has_close = false;
                if lineend - start >= 7 {
                    let mut j = lineend - 3;
                    while j >= start + 4 && !has_close
                        invariant
                            start + 4 <= j + 1,
                            j + 3 <= lineend <= n,
                            n == this.source@.len(),
                            this.wf(),
                            this.pos == start,
                            has_close ==> start + 4 <= close && close + 3 <= lineend,
                        decreases j - start + (if has_close { 0int } else { 1int }),
                    {
                        if this.source[j] == 0x22 && this.source[j + 1] == 0x22 && this.source[j
                            + 2] == 0x22 {
                            close = j;
                            has_close = true;
                        } else {
                            j = j - 1;
                        }
                    }
                }
                if !has_close {
                    return Err(
                        LexicalError {
                            msg: "Invalid character!".to_owned(),
                            location: this.get_location(start),
                        },
                    );
                }
                let value = vstd::slice::slice_to_vec(&this.source[start..close + 3]);
                match this.emit(Token::Str { value }, start, close + 3) {
                    Ok(()) => {},
                    Err(e) => {
                        return Err(e);
                    },
                }
                this.pos = close + 3;
            } else if c == 0x27 {
                // Short string: a quote, at least one byte, a quote; the
                // quotes are stripped.
                let mut k = start + 1;
                while k < n && this.source[k] != 0x27
                    invariant
                        start < k <= n,
                        n == this.source@.len(),
                        this.wf(),
                        this.pos == start,
                    decreases n - k,
                {
                    k = k + 1;
                }
                if k >= n || k == start + 1 {
                    return Err(
                        LexicalError {
                            msg: "Invalid character!".to_owned(),
                            location: this.get_location(start),
                        },
                    );
                }
                let value = vstd::slice::slice_to_vec(&this.source[start + 1..k]);
                match this.emit(Token::Str { value }, start, k + 1) {
                    Ok(()) => {},
                    Err(e) => {
                        return Err(e);
                    },
                }
                this.pos = k + 1;
            } else if c == 0x23 {
                // Comment: a hash, anything up to a newline; the whole run
                // behaves like a line end.
                let mut k = start + 1;
                while k < n && this.source[k] != 0x0a
                    invariant
                        start < k <= n,
                        n == this.source@.len(),
                        this.wf(),
                        this.pos == start,
                    decreases n - k,
                {
                    k = k + 1;
                }
                if k >= n {
                    return Err(
                        LexicalError {
                            msg: "Invalid character!".to_owned(),
                            location: this.get_location(start),
                        },
                    );
                }
                this.newline(start, k + 1);
            } else if c == 0x20 {
                let mut end = start + 1;
                while end < n && this.source[end] == 0x20
                    invariant
                        start < end <= n,
                        n == this.source@.len(),
                        this.wf(),
                        this.pos == start,
                    decreases n - end,
                {
                    end = end + 1;
                }
                if this.at_bol {
                    this.spaces = this.spaces + (end - start);
                }
                this.pos = end;
            } else if c == 0x0a {
                this.newline(start, start + 1);
            } else if c == 0x5c {
                // A backslash-newline continues the line: the row advances
                // without a token and without resetting the indentation.
                if start + 1 < n && this.source[start + 1] == 0x0a {
                    this.column_offset = start + 2;
                    this.row = this.row + 1;
                    this.pos = start + 2;
                } else {
                    return Err(
                        LexicalError {
                            msg: "Invalid character!".to_owned(),
                            location: this.get_location(start),
                        },
                    );
                }
            } else {
                // Punctuation, longest match first.
                let two = start + 1 < n;
                let next = if two {
                    this.source[start + 1]
                } else {
                    0
                };
                let (token, width): (Token, usize) = if c == 0x3c && two && next == 0x3d {
                    (Token::LessEqual, 2)
                } else if c == 0x3e && two && next == 0x3d {
                    (Token::GreaterEqual, 2)
                } else if c == 0x3d && two && next == 0x3d {
                    (Token::EqualEqual, 2)
                } else if c == 0x21 && two && next == 0x3d {
                    (Token::NotEqual, 2)
                } else if c == 0x2d && two && next == 0x3e {
                    (Token::Arrow, 2)
                } else if c == 0x3a {
                    (Token::Colon, 1)
                } else if c == 0x28 {
                    (Token::OpeningParenthesis, 1)
                } else if c == 0x29 {
                    (Token::ClosingParenthesis, 1)
                } else if c == 0x5b {
                    (Token::OpeningBracket, 1)
                } else if c == 0x5d {
                    (Token::ClosingBracket, 1)
                } else if c == 0x7b {
                    (Token::OpeningBrace, 1)
                } else if c == 0x7d {
                    (Token::ClosingBrace, 1)
                } else if c == 0x2c {
                    (Token::Comma, 1)
                } else if c == 0x2b {
                    (Token::Plus, 1)
                } else if c == 0x2d {
                    (Token::Minus, 1)
                } else if c == 0x2a {
                    (Token::Asterix, 1)
                } else if c == 0x2f {
                    (Token::Slash, 1)
                } else if c == 0x3c {
                    (Token::Less, 1)
                } else if c == 0x3e {
                    (Token::Greater, 1)
                } else if c == 0x3d {
                    (Token::Equal, 1)
                } else {
                    return Err(
                        LexicalError {
                            msg: "Invalid character!".to_owned(),
                            location: this.get_location(start),
                        },
                    );
                };
                if c == 0x28 || c == 0x5b || c == 0x7b {
                    this.parenthesis_level = this.parenthesis_level + 1;
                } else if c == 0x29 || c == 0x5d || c == 0x7d {
                    if this.parenthesis_level > 0 {
                        this.parenthesis_level = this.parenthesis_level - 1;
                    }
                }
                match this.emit(token, start, start + width) {
                    Ok(()) => {},
                    Err(e) => {
                        return Err(e);
                    },
                }
                this.pos = start + width;
            }
        }
        // End of input: close every open block.
        let location = Location { row: this.row, column: 1 };
        while this.indentations.len() > 1
            invariant
                this.wf(),
                self.has_no_input() ==> (this.tokens@.len() == 0 && this.indentations@.len()
                    == 1),
            decreases this.indentations@.len(),
        {
            this.dedent(location);
        }
        Ok(this.tokens)
    }
}

} // verus!
