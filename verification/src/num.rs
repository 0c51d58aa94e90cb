//! Reading an unsigned decimal number the way `str::parse::<u64>` does.
use vstd::prelude::*;
use crate::text::chars_of;

verus! {

/// How reading a `u64` from text ended.
#[derive(Debug, Clone, Copy, PartialEq, Eq, Structural)]
pub enum ParsedU64 {
    Value(u64),
    /// The text is empty.
    Empty,
    /// A character is not a decimal digit (a lone `+` counts as one).
    InvalidDigit,
    /// The number does not fit in a `u64`.
    Overflow,
}

pub open spec fn digit_value(c: char) -> int {
    (c as int) - ('0' as int)
}

/// The digits `d`, read after the value `acc`.
pub open spec fn scan_digits(d: Seq<char>, acc: nat) -> ParsedU64
    decreases d.len(),
{
    if d.len() == 0 {
        if acc <= u64::MAX {
            ParsedU64::Value(acc as u64)
        } else {
            ParsedU64::Overflow
        }
    } else if !crate::text::is_digit(d[0]) {
        ParsedU64::InvalidDigit
    } else if acc * 10 + digit_value(d[0]) > u64::MAX {
        ParsedU64::Overflow
    } else {
        scan_digits(d.drop_first(), (acc * 10 + digit_value(d[0])) as nat)
    }
}

/// What `str::parse::<u64>` gives for `s`: an optional `+`, then decimal
/// digits; the first character that is no digit, or the first that makes
/// the number too large, decides the error.
pub open spec fn parse_u64(s: Seq<char>) -> ParsedU64 {
    if s.len() == 0 {
        ParsedU64::Empty
    } else if (s[0] == '+' || s[0] == '-') && s.len() == 1 {
        ParsedU64::InvalidDigit
    } else if s[0] == '+' {
        scan_digits(s.drop_first(), 0)
    } else {
        scan_digits(s, 0)
    }
}

/// The text `std` gives a failed integer parse.
pub open spec fn parse_error_text(p: ParsedU64) -> Seq<char> {
    match p {
        ParsedU64::Empty => "cannot parse integer from empty string"@,
        ParsedU64::InvalidDigit => "invalid digit found in string"@,
        _ => "number too large to fit in target type"@,
    }
}

/// Read a `u64` from `s`.
pub fn parse_u64_text(s: &str) -> (r: ParsedU64)
    ensures
        r == parse_u64(s@),
{
    let cs = chars_of(s);
    let n = cs.len();
    if n == 0 {
        return ParsedU64::Empty;
    }
    if (cs[0] == '+' || cs[0] == '-') && n == 1 {
        return ParsedU64::InvalidDigit;
    }
    let start: usize = if cs[0] == '+' {
        1
    } else {
        0
    };
    let ghost d = cs@.skip(start as int);
    assert(start == 1 ==> d =~= cs@.drop_first());
    assert(start == 0 ==> d =~= cs@);
    let mut acc: u64 = 0;
    let mut i: usize = start;
    assert(cs@.skip(i as int) =~= d);
    assert(parse_u64(s@) == scan_digits(d, 0));
    while i < n
        invariant
            start <= i <= n,
            parse_u64(s@) == scan_digits(d, 0),
            n == cs@.len(),
            d == cs@.skip(start as int),
            scan_digits(d, 0) == scan_digits(cs@.skip(i as int), acc as nat),
        decreases n - i,
    {
        let c = cs[i];
        assert(cs@.skip(i as int)[0] == c);
        assert(cs@.skip(i as int).drop_first() =~= cs@.skip(i + 1));
        if !('0' <= c && c <= '9') {
            return ParsedU64::InvalidDigit;
        }
        let dv = (c as u32 - '0' as u32) as u64;
        assert(dv == digit_value(c));
        if acc > (u64::MAX - dv) / 10 {
            assert(acc * 10 + dv > u64::MAX) by (nonlinear_arith)
                requires
                    acc > (u64::MAX - dv) / 10,
                    dv <= 9,
            ;
            return ParsedU64::Overflow;
        }
        assert(acc * 10 + dv <= u64::MAX) by (nonlinear_arith)
            requires
                acc <= (u64::MAX - dv) / 10,
                dv <= 9,
        ;
        acc = acc * 10 + dv;
        i = i + 1;
    }
    assert(cs@.skip(i as int) =~= Seq::<char>::empty());
    ParsedU64::Value(acc)
}

} // verus!
