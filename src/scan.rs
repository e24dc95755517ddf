use vstd::prelude::*;
use vstd::utf8::encode_utf8;

verus! {

/// How many times `json::parse` may lower the `i16` decimal exponent of a
/// number that starts from exponent 0: one step more overflows it.
pub const EXPONENT_STEP_LIMIT: u32 = 32769;

/// Where a left-to-right reading of a JSON text stands, as far as the
/// exponent of a fraction with a lone `0` integer part is concerned.
#[derive(Debug, Clone, Copy, PartialEq, Eq, Structural)]
pub enum LexState {
    /// Between tokens, or in a token that is not a number.
    Outside,
    /// In the digits of an integer part that is not a lone `0`.
    Integer,
    /// Just after a `0` that starts an integer part.
    Zero,
    /// In the fraction digits after `0.`: the mantissa read so far, and how
    /// many times the exponent was lowered (saturating at the limit).
    Fraction(u64, u32),
    /// Inside a string.
    Quoted,
    /// Inside a string, just after a backslash.
    Escaped,
}

pub open spec fn is_digit_byte(c: u8) -> bool {
    48 <= c && c <= 57
}

/// The next state after byte `c`. A fraction digit `d` lowers the exponent
/// exactly when the mantissa times ten plus `d` still fits in a `u64`, and
/// then becomes the new mantissa.
pub open spec fn step(s: LexState, c: u8) -> LexState {
    match s {
        LexState::Quoted => if c == 92u8 {
            LexState::Escaped
        } else if c == 34u8 {
            LexState::Outside
        } else {
            LexState::Quoted
        },
        LexState::Escaped => LexState::Quoted,
        LexState::Fraction(num, n) => if is_digit_byte(c) {
            let v = num * 10 + (c - 48);
            if v <= u64::MAX {
                LexState::Fraction(v as u64, if n < EXPONENT_STEP_LIMIT { (n + 1) as u32 } else { n })
            } else {
                LexState::Fraction(num, n)
            }
        } else if c == 34u8 {
            LexState::Quoted
        } else {
            LexState::Outside
        },
        LexState::Zero => if c == 46u8 {
            LexState::Fraction(0, 0)
        } else if is_digit_byte(c) {
            LexState::Integer
        } else if c == 34u8 {
            LexState::Quoted
        } else {
            LexState::Outside
        },
        LexState::Integer => if is_digit_byte(c) {
            LexState::Integer
        } else if c == 34u8 {
            LexState::Quoted
        } else {
            LexState::Outside
        },
        LexState::Outside => if c == 48u8 {
            LexState::Zero
        } else if is_digit_byte(c) {
            LexState::Integer
        } else if c == 34u8 {
            LexState::Quoted
        } else {
            LexState::Outside
        },
    }
}

/// The state after reading the first `k` bytes of `b`.
pub open spec fn scan(b: Seq<u8>, k: int) -> LexState
    decreases k,
{
    if k <= 0 || k > b.len() {
        LexState::Outside
    } else {
        step(scan(b, k - 1), b[k - 1])
    }
}

pub open spec fn at_limit(s: LexState) -> bool {
    match s {
        LexState::Fraction(_, n) => n >= EXPONENT_STEP_LIMIT,
        _ => false,
    }
}

/// Whether some fraction after a lone `0` (outside strings) lowers the
/// exponent `EXPONENT_STEP_LIMIT` times: the texts on which `json::parse`
/// overflows it.
pub open spec fn has_overlong_fraction(b: Seq<u8>) -> bool {
    exists|k: int| 0 <= k <= b.len() && #[trigger] at_limit(scan(b, k))
}

/// One step of the scan.
pub fn next_state(s: LexState, c: u8) -> (r: LexState)
    ensures
        r == step(s, c),
{
    let digit = 48 <= c && c <= 57;
    match s {
        LexState::Quoted => if c == 92 {
            LexState::Escaped
        } else if c == 34 {
            LexState::Outside
        } else {
            LexState::Quoted
        },
        LexState::Escaped => LexState::Quoted,
        LexState::Fraction(num, n) => if digit {
            let d: u64 = (c - 48) as u64;
            if num < 1844674407370955161 || (num == 1844674407370955161 && d <= 5) {
                let n2: u32 = if n < EXPONENT_STEP_LIMIT { n + 1 } else { n };
                LexState::Fraction(num * 10 + d, n2)
            } else {
                LexState::Fraction(num, n)
            }
        } else if c == 34 {
            LexState::Quoted
        } else {
            LexState::Outside
        },
        LexState::Zero => if c == 46 {
            LexState::Fraction(0, 0)
        } else if digit {
            LexState::Integer
        } else if c == 34 {
            LexState::Quoted
        } else {
            LexState::Outside
        },
        LexState::Integer => if digit {
            LexState::Integer
        } else if c == 34 {
            LexState::Quoted
        } else {
            LexState::Outside
        },
        LexState::Outside => if c == 48 {
            LexState::Zero
        } else if digit {
            LexState::Integer
        } else if c == 34 {
            LexState::Quoted
        } else {
            LexState::Outside
        },
    }
}

/// Scans a text for a fraction that `json::parse` cannot read without
/// overflowing its exponent.
pub fn overlong_fraction(text: &str) -> (r: bool)
    ensures
        r == has_overlong_fraction(encode_utf8(text@)),
{
    let b = text.as_bytes();
    let n = b.len();
    let mut s = LexState::Outside;
    let mut i: usize = 0;
    while i < n
        invariant
            i <= n,
            n == b@.len(),
            b@ == encode_utf8(text@),
            s == scan(b@, i as int),
            forall|k: int| 0 <= k <= i ==> !#[trigger] at_limit(scan(b@, k)),
        decreases n - i,
    {
        s = next_state(s, b[i]);
        i = i + 1;
        if at_limit_exec(s) {
            assert(at_limit(scan(b@, i as int)));
            return true;
        }
    }
    false
}

fn at_limit_exec(s: LexState) -> (r: bool)
    ensures
        r == at_limit(s),
{
    match s {
        LexState::Fraction(_, n) => n >= EXPONENT_STEP_LIMIT,
        _ => false,
    }
}

} // verus!
