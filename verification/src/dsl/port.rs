//! Reading a port number from the digits of an integer literal.

use vstd::prelude::*;

use crate::text::chars_of;

verus! {

/// Why a text is not a `u16` in decimal.
#[derive(Debug, Clone, Copy, PartialEq, Eq, Structural)]
pub enum IntError {
    Empty,
    InvalidDigit,
    PosOverflow,
}

impl IntError {
    pub open spec fn text(self) -> Seq<char> {
        match self {
            IntError::Empty => "cannot parse integer from empty string"@,
            IntError::InvalidDigit => "invalid digit found in string"@,
            IntError::PosOverflow => "number too large to fit in target type"@,
        }
    }

    pub fn message(&self) -> (r: &'static str)
        ensures
            r@ == self.text(),
    {
        match self {
            IntError::Empty => "cannot parse integer from empty string",
            IntError::InvalidDigit => "invalid digit found in string",
            IntError::PosOverflow => "number too large to fit in target type",
        }
    }
}

pub open spec fn is_digit(c: char) -> bool {
    '0' <= c && c <= '9'
}

/// Reads the first `n` characters of `d` as decimal digits, stopping at the
/// first character that is not a digit or the first digit that takes the
/// value past `u16::MAX`.
pub open spec fn digits_value(d: Seq<char>, n: int) -> Result<nat, IntError>
    decreases n,
{
    if n <= 0 {
        Ok(0)
    } else {
        match digits_value(d, n - 1) {
            Err(e) => Err(e),
            Ok(v) => if !is_digit(d[n - 1]) {
                Err(IntError::InvalidDigit)
            } else if v * 10 + (d[n - 1] as nat - '0' as nat) > 65535 {
                Err(IntError::PosOverflow)
            } else {
                Ok((v * 10 + (d[n - 1] as nat - '0' as nat)) as nat)
            },
        }
    }
}

/// What `u16::from_str` gives for `s`: an optional leading `+`, then
/// decimal digits.
pub open spec fn parse_u16(s: Seq<char>) -> Result<u16, IntError> {
    if s.len() == 0 {
        Err(IntError::Empty)
    } else if (s[0] == '+' || s[0] == '-') && s.len() == 1 {
        Err(IntError::InvalidDigit)
    } else {
        let d = if s[0] == '+' { s.drop_first() } else { s };
        match digits_value(d, d.len() as int) {
            Err(e) => Err(e),
            Ok(v) => Ok(v as u16),
        }
    }
}

proof fn lemma_digits_bound(d: Seq<char>, n: int)
    ensures
        digits_value(d, n) matches Ok(v) ==> v <= 65535,
    decreases n,
{
    if n > 0 {
        lemma_digits_bound(d, n - 1);
    }
}

proof fn lemma_digits_stop(d: Seq<char>, n: int, m: int)
    requires
        0 <= n <= m,
        digits_value(d, n) is Err,
    ensures
        digits_value(d, m) == digits_value(d, n),
    decreases m - n,
{
    if m > n {
        lemma_digits_stop(d, n, m - 1);
    }
}

/// Reads a port number written in decimal (`u16::from_str`).
pub fn parse_port(digits: &str) -> (r: Result<u16, IntError>)
    ensures
        r == parse_u16(digits@),
{
    let s = chars_of(digits);
    if s.len() == 0 {
        return Err(IntError::Empty);
    }
    if (s[0] == '+' || s[0] == '-') && s.len() == 1 {
        return Err(IntError::InvalidDigit);
    }
    let start: usize = if s[0] == '+' { 1 } else { 0 };
    let ghost d = if s@[0] == '+' { s@.drop_first() } else { s@ };
    assert(d == s@.subrange(start as int, s.len() as int));
    let mut value: u32 = 0;
    let mut i: usize = start;
    while i < s.len()
        invariant
            start <= i <= s.len(),
            s@ == digits@,
            s.len() > 0,
            !((s@[0] == '+' || s@[0] == '-') && s.len() == 1),
            start == (if s@[0] == '+' { 1usize } else { 0usize }),
            d == (if s@[0] == '+' { s@.drop_first() } else { s@ }),
            d == s@.subrange(start as int, s.len() as int),
            digits_value(d, i - start) == Ok::<nat, IntError>(value as nat),
            value <= 65535,
        decreases s.len() - i,
    {
        let c = s[i];
        assert(d[i - start] == c);
        if !('0' <= c && c <= '9') {
            proof { lemma_digits_stop(d, i - start + 1, d.len() as int); }
            return Err(IntError::InvalidDigit);
        }
        let x = (c as u32) - ('0' as u32);
        if value * 10 + x > 65535 {
            proof { lemma_digits_stop(d, i - start + 1, d.len() as int); }
            return Err(IntError::PosOverflow);
        }
        value = value * 10 + x;
        i += 1;
    }
    Ok(value as u16)
}

} // verus!
