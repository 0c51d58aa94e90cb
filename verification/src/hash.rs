//! FNV-1a (64-bit) over UTF-8 text and fixed-width lowercase hexadecimal,
//! the two pieces every content key in the crate is made of.
use vstd::prelude::*;
use vstd::utf8::encode_utf8;
use vstd::wrapping::u64_specs;

verus! {

pub open spec fn fnv_offset() -> u64 {
    0xcbf2_9ce4_8422_2325u64
}

pub open spec fn fnv_prime() -> u64 {
    0x0000_0100_0000_01b3u64
}

/// FNV-1a, 64-bit, of `bytes`.
pub open spec fn fnv1a(bytes: Seq<u8>) -> u64
    decreases bytes.len(),
{
    if bytes.len() == 0 {
        fnv_offset()
    } else {
        u64_specs::wrapping_mul(fnv1a(bytes.drop_last()) ^ (bytes.last() as u64), fnv_prime())
    }
}

/// FNV-1a, 64-bit, of the UTF-8 encoding of a text.
pub open spec fn fnv1a_text(s: Seq<char>) -> u64 {
    fnv1a(encode_utf8(s))
}

/// The lowercase hex digit of `d` (below 16).
pub open spec fn hex_digit(d: int) -> char {
    seq!['0', '1', '2', '3', '4', '5', '6', '7', '8', '9', 'a', 'b', 'c', 'd', 'e', 'f'][d]
}

/// The last `n` hexadecimal digits of `v`, most significant first: `{v:0n x}`
/// when `v` has at most `n` digits.
pub open spec fn hex_fixed(v: nat, n: nat) -> Seq<char>
    decreases n,
{
    if n == 0 {
        seq![]
    } else {
        hex_fixed(v / 16, (n - 1) as nat).push(hex_digit((v % 16) as int))
    }
}

pub proof fn lemma_hex_fixed_len(v: nat, n: nat)
    ensures
        hex_fixed(v, n).len() == n,
    decreases n,
{
    if n > 0 {
        lemma_hex_fixed_len(v / 16, (n - 1) as nat);
    }
}

/// FNV-1a, 64-bit, of `bytes`.
pub fn fnv1a_64(bytes: &[u8]) -> (r: u64)
    ensures
        r == fnv1a(bytes@),
{
    let mut h: u64 = 0xcbf2_9ce4_8422_2325;
    let mut i: usize = 0;
    assert(bytes@.take(0) =~= Seq::<u8>::empty());
    while i < bytes.len()
        invariant
            i <= bytes@.len(),
            h == fnv1a(bytes@.take(i as int)),
        decreases bytes@.len() - i,
    {
        assert(bytes@.take(i + 1).drop_last() =~= bytes@.take(i as int));
        h = (h ^ (bytes[i] as u64)).wrapping_mul(0x0000_0100_0000_01b3);
        i = i + 1;
    }
    assert(bytes@.take(bytes@.len() as int) =~= bytes@);
    h
}

/// FNV-1a, 64-bit, of the UTF-8 bytes of `s`.
pub fn fnv1a_str(s: &str) -> (r: u64)
    ensures
        r == fnv1a_text(s@),
{
    let b = s.as_bytes_vec();
    fnv1a_64(b.as_slice())
}

/// The lowercase hex digit of `d`.
pub fn hex_char(d: u64) -> (c: char)
    requires
        d < 16,
    ensures
        c == hex_digit(d as int),
{
    match d {
        0 => '0',
        1 => '1',
        2 => '2',
        3 => '3',
        4 => '4',
        5 => '5',
        6 => '6',
        7 => '7',
        8 => '8',
        9 => '9',
        10 => 'a',
        11 => 'b',
        12 => 'c',
        13 => 'd',
        14 => 'e',
        _ => 'f',
    }
}

/// The last `n` hexadecimal digits of `v`.
pub fn hex_fixed_chars(v: u64, n: usize) -> (r: Vec<char>)
    ensures
        r@ == hex_fixed(v as nat, n as nat),
    decreases n,
{
    if n == 0 {
        Vec::new()
    } else {
        let mut r = hex_fixed_chars(v / 16, n - 1);
        r.push(hex_char(v % 16));
        r
    }
}

/// `format!("{v:0n$x}")` for a `v` of at most `n` digits.
pub fn hex_string(v: u64, n: usize) -> (r: String)
    ensures
        r@ == hex_fixed(v as nat, n as nat),
{
    let cs = hex_fixed_chars(v, n);
    crate::text::string_of(cs.as_slice())
}

/// FNV-1a of `bytes` as 16 lowercase hex characters.
pub fn fnv1a_hex(bytes: &[u8]) -> (r: String)
    ensures
        r@ == hex_fixed(fnv1a(bytes@) as nat, 16),
        r@.len() == 16,
{
    let h = fnv1a_64(bytes);
    proof {
        lemma_hex_fixed_len(h as nat, 16);
    }
    hex_string(h, 16)
}

} // verus!

verus! {

/// The decimal digits of `n`, as `format!("{n}")` writes them.
pub open spec fn decimal(n: nat) -> Seq<char>
    decreases n,
{
    if n < 10 {
        seq![hex_digit(n as int)]
    } else {
        decimal(n / 10).push(hex_digit((n % 10) as int))
    }
}

/// `format!("{n}")` for an unsigned integer.
pub fn decimal_chars(n: u64) -> (r: Vec<char>)
    ensures
        r@ == decimal(n as nat),
    decreases n,
{
    if n < 10 {
        let mut v: Vec<char> = Vec::new();
        v.push(hex_char(n));
        v
    } else {
        let mut v = decimal_chars(n / 10);
        v.push(hex_char(n % 10));
        v
    }
}

/// `format!("{n}")` for an unsigned integer.
pub fn decimal_string(n: u64) -> (r: String)
    ensures
        r@ == decimal(n as nat),
{
    let cs = decimal_chars(n);
    crate::text::string_of(cs.as_slice())
}

} // verus!
