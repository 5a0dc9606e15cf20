//! The grammar of a vertex coordinate token.
//!
//! A coordinate is an optionally signed decimal number with an optional
//! fraction and an optional exponent: `-1`, `0.25`, `1.`, `.5`, `2.5e-3`.
//! Every token this grammar accepts is also accepted by Rust's `f32`
//! parser, so a caller can hand a validated token to `str::parse::<f32>`
//! without a failure path.

use vstd::prelude::*;

verus! {

/// The states of the recognizer, read left to right through the token.
#[derive(Clone, Copy, PartialEq, Eq, Structural, Debug)]
pub enum NumState {
    /// Nothing read yet.
    Start,
    /// A leading sign was read.
    Sign,
    /// One or more integer digits were read (accepting).
    IntPart,
    /// A decimal point with no digit before it, and none after it yet.
    LoneDot,
    /// A decimal point preceded or followed by at least one digit
    /// (accepting).
    FracPart,
    /// An exponent mark `e` or `E` was read.
    ExpMark,
    /// A sign directly after the exponent mark.
    ExpSign,
    /// One or more exponent digits were read (accepting).
    ExpDigits,
    /// The token can no longer be a number.
    Reject,
}

pub open spec fn is_digit(c: char) -> bool {
    '0' <= c && c <= '9'
}

/// One step of the recognizer.
pub open spec fn num_step(st: NumState, c: char) -> NumState {
    match st {
        NumState::Start => if is_digit(c) {
            NumState::IntPart
        } else if c == '+' || c == '-' {
            NumState::Sign
        } else if c == '.' {
            NumState::LoneDot
        } else {
            NumState::Reject
        },
        NumState::Sign => if is_digit(c) {
            NumState::IntPart
        } else if c == '.' {
            NumState::LoneDot
        } else {
            NumState::Reject
        },
        NumState::IntPart => if is_digit(c) {
            NumState::IntPart
        } else if c == '.' {
            NumState::FracPart
        } else if c == 'e' || c == 'E' {
            NumState::ExpMark
        } else {
            NumState::Reject
        },
        NumState::LoneDot => if is_digit(c) {
            NumState::FracPart
        } else {
            NumState::Reject
        },
        NumState::FracPart => if is_digit(c) {
            NumState::FracPart
        } else if c == 'e' || c == 'E' {
            NumState::ExpMark
        } else {
            NumState::Reject
        },
        NumState::ExpMark => if is_digit(c) {
            NumState::ExpDigits
        } else if c == '+' || c == '-' {
            NumState::ExpSign
        } else {
            NumState::Reject
        },
        NumState::ExpSign => if is_digit(c) {
            NumState::ExpDigits
        } else {
            NumState::Reject
        },
        NumState::ExpDigits => if is_digit(c) {
            NumState::ExpDigits
        } else {
            NumState::Reject
        },
        NumState::Reject => NumState::Reject,
    }
}

/// The state after reading all of `s`.
pub open spec fn num_scan(s: Seq<char>) -> NumState
    decreases s.len(),
{
    if s.len() == 0 {
        NumState::Start
    } else {
        num_step(num_scan(s.drop_last()), s.last())
    }
}

/// The states in which the characters read so far form a complete number.
pub open spec fn num_accepts(st: NumState) -> bool {
    st == NumState::IntPart || st == NumState::FracPart || st == NumState::ExpDigits
}

/// A token is numeric when the recognizer accepts the whole of it.
pub open spec fn is_numeric_token(s: Seq<char>) -> bool {
    num_accepts(num_scan(s))
}

/// Executable mirror of [`num_step`].
pub fn num_step_exec(st: NumState, c: char) -> (r: NumState)
    ensures
        r == num_step(st, c),
{
    let digit = '0' <= c && c <= '9';
    match st {
        NumState::Start => if digit {
            NumState::IntPart
        } else if c == '+' || c == '-' {
            NumState::Sign
        } else if c == '.' {
            NumState::LoneDot
        } else {
            NumState::Reject
        },
        NumState::Sign => if digit {
            NumState::IntPart
        } else if c == '.' {
            NumState::LoneDot
        } else {
            NumState::Reject
        },
        NumState::IntPart => if digit {
            NumState::IntPart
        } else if c == '.' {
            NumState::FracPart
        } else if c == 'e' || c == 'E' {
            NumState::ExpMark
        } else {
            NumState::Reject
        },
        NumState::LoneDot => if digit {
            NumState::FracPart
        } else {
            NumState::Reject
        },
        NumState::FracPart => if digit {
            NumState::FracPart
        } else if c == 'e' || c == 'E' {
            NumState::ExpMark
        } else {
            NumState::Reject
        },
        NumState::ExpMark => if digit {
            NumState::ExpDigits
        } else if c == '+' || c == '-' {
            NumState::ExpSign
        } else {
            NumState::Reject
        },
        NumState::ExpSign => if digit {
            NumState::ExpDigits
        } else {
            NumState::Reject
        },
        NumState::ExpDigits => if digit {
            NumState::ExpDigits
        } else {
            NumState::Reject
        },
        NumState::Reject => NumState::Reject,
    }
}

/// Executable recognizer for [`is_numeric_token`].
pub fn numeric_token(s: &str) -> (r: bool)
    ensures
        r == is_numeric_token(s@),
{
    let n = s.unicode_len();
    let mut st = NumState::Start;
    let mut i: usize = 0;
    while i < n
        invariant
            0 <= i <= n == s@.len(),
            st == num_scan(s@.take(i as int)),
        decreases n - i,
    {
        let c = s.get_char(i);
        st = num_step_exec(st, c);
        i = i + 1;
        proof {
            assert(s@.take(i as int).drop_last() =~= s@.take(i - 1 as int));
            assert(s@.take(i as int).last() == s@[i - 1 as int]);
        }
    }
    proof {
        assert(s@.take(n as int) =~= s@);
    }
    match st {
        NumState::IntPart => true,
        NumState::FracPart => true,
        NumState::ExpDigits => true,
        _ => false,
    }
}

} // verus!
