//! Decoding of the base32 alphabet `A-Z2-7`.
use vstd::arithmetic::div_mod::*;
use vstd::arithmetic::power2::*;
use vstd::bits::*;
use vstd::prelude::*;

use crate::text::{chars_of, upper_char};

verus! {

/// The value of a base32 digit, in either case.
pub open spec fn base32_digit(c: char) -> Option<nat> {
    let u = upper_char(c);
    if 'A' <= u <= 'Z' {
        Some((u as int - 65) as nat)
    } else if '2' <= u <= '7' {
        Some((u as int - 24) as nat)
    } else {
        None
    }
}

/// Whether a text is made of base32 digits.
pub open spec fn is_base32(s: Seq<char>) -> bool {
    forall|i: int| 0 <= i < s.len() ==> base32_digit(#[trigger] s[i]) is Some
}

/// The number that a row of base32 digits writes, the first digit the highest.
pub open spec fn base32_value(s: Seq<char>) -> nat
    decreases s.len(),
{
    if s.len() == 0 {
        0
    } else {
        base32_value(s.drop_last()) * 32 + base32_digit(s.last())->0
    }
}

/// The number that a row of bytes writes, the first byte the highest.
pub open spec fn bytes_value(b: Seq<u8>) -> nat
    decreases b.len(),
{
    if b.len() == 0 {
        0
    } else {
        bytes_value(b.drop_last()) * 256 + b.last() as nat
    }
}

/// Whether `out` is the decoding of `s`: as many whole bytes as the digits
/// fill, holding the digits' number without the bits that are left over.
pub open spec fn decodes_to(s: Seq<char>, out: Seq<u8>) -> bool {
    &&& out.len() == s.len() * 5 / 8
    &&& bytes_value(out) == base32_value(s) / pow2((s.len() * 5 % 8) as nat)
}

/// The value of a base32 digit.
fn digit_value(c: char) -> (r: Option<u32>)
    ensures
        r is Some <==> base32_digit(c) is Some,
        r matches Some(d) ==> d < 32 && base32_digit(c) == Some(d as nat),
{
    if 'A' <= c && c <= 'Z' {
        Some(c as u32 - 65)
    } else if 'a' <= c && c <= 'z' {
        Some(c as u32 - 97)
    } else if '2' <= c && c <= '7' {
        Some(c as u32 - 24)
    } else {
        None
    }
}

/// One more digit: the old number's whole bytes stay, and a byte comes out
/// where eight bits are pending.
proof fn lemma_step(value: nat, d: nat, bits: nat)
    requires
        bits < 8,
        d < 32,
    ensures
        bits + 5 < 8 ==> (value * 32 + d) / pow2(bits + 5) == value / pow2(bits),
        bits + 5 >= 8 ==> (value * 32 + d) / pow2((bits + 5 - 8) as nat) == (value / pow2(bits))
            * 256 + ((value * 32 + d) / pow2((bits + 5 - 8) as nat)) % 256,
{
    let p = pow2(bits);
    let next = value * 32 + d;
    lemma_pow2_pos(bits);
    lemma_pow2_adds(bits, 5);
    lemma2_to64();
    assert(pow2(bits + 5) == p * 32);
    // The digit lies below the bits that are kept.
    assert(next / 32 == value);
    lemma_div_denominator(next as int, 32, p as int);
    assert(32 * p == p * 32) by (nonlinear_arith);
    assert(next / (p * 32) == value / p);
    if bits + 5 >= 8 {
        let rest = (bits + 5 - 8) as nat;
        lemma_pow2_pos(rest);
        lemma_pow2_adds(rest, 8);
        assert(pow2(rest) * 256 == p * 32);
        lemma_div_denominator(next as int, pow2(rest) as int, 256);
        lemma_fundamental_div_mod((next / pow2(rest)) as int, 256);
    }
}

/// The byte that stands `bits` above the low end of the buffer.
proof fn lemma_byte(buf: u32, value: nat, bits: u8)
    requires
        buf == value % 0x1_0000_0000,
        bits < 8,
    ensures
        ((buf >> bits) & 0xff) == (value / pow2(bits as nat)) % 256,
{
    let p = pow2(bits as nat);
    let r = pow2((24 - bits) as nat);
    let q = value / 0x1_0000_0000;
    lemma_pow2_pos(bits as nat);
    lemma_pow2_pos((24 - bits) as nat);
    lemma_pow2_adds(bits as nat, (24 - bits) as nat);
    lemma2_to64();
    assert(p * r == 0x100_0000);
    lemma_u32_shr_is_div(buf, bits as u32);
    assert(buf >> bits == buf as nat / p);
    let low = buf >> bits;
    assert(low & 0xff == low % 256) by (bit_vector);
    // The part of the number above the buffer adds a multiple of 256.
    assert(value == q * 0x1_0000_0000 + buf);
    assert(q * 0x1_0000_0000 == (q * r * 256) * p) by (nonlinear_arith)
        requires
            p * r == 0x100_0000,
    ;
    lemma_hoist_over_denominator(buf as int, (q * r * 256) as int, p);
    assert((buf as int + (q * r * 256) * p) / p as int == buf as int / p as int + q * r * 256);
    assert(value / p == buf as nat / p + q * r * 256);
    lemma_mod_multiples_vanish((q * r) as int, (buf as nat / p) as int, 256);
    assert(256 * (q * r) == q * r * 256) by (nonlinear_arith);
}

proof fn lemma_shift_in(buf: u32, d: u32)
    requires
        d < 32,
    ensures
        ((buf << 5u32) | d) == (buf * 32 + d) % 0x1_0000_0000,
{
    assert(((buf << 5u32) | d) == (buf * 32 + d) % 0x1_0000_0000) by (bit_vector)
        requires
            d < 32,
    ;
}

/// Decodes base32 text in either case; nothing where a character is no base32
/// digit. Bits left over after the last whole byte are dropped.
pub fn base32_decode(input: &str) -> (r: Option<Vec<u8>>)
    ensures
        r is Some <==> is_base32(input@),
        r matches Some(out) ==> decodes_to(input@, out@),
{
    let cs = chars_of(input);
    let n: usize = cs.len();
    let mut out: Vec<u8> = Vec::new();
    let mut buf: u32 = 0;
    let mut bits: u8 = 0;
    let mut i: usize = 0;
    proof {
        lemma2_to64();
        assert(input@.take(0) == Seq::<char>::empty());
    }
    while i < n
        invariant
            i <= n,
            n == cs@.len(),
            cs@ == input@,
            bits < 8,
            i * 5 == out@.len() * 8 + bits,
            buf == base32_value(input@.take(i as int)) % 0x1_0000_0000,
            bytes_value(out@) == base32_value(input@.take(i as int)) / pow2(bits as nat),
            forall|j: int| 0 <= j < i ==> base32_digit(#[trigger] input@[j]) is Some,
        decreases n - i,
    {
        let d: u32 = match digit_value(cs[i]) {
            Some(d) => d,
            None => {
                proof {
                    assert(base32_digit(input@[i as int]) is None);
                }
                return None;
            },
        };
        let ghost value = base32_value(input@.take(i as int));
        let ghost next = value * 32 + d as nat;
        proof {
            assert(input@.take(i + 1).drop_last() == input@.take(i as int));
            assert(base32_value(input@.take(i + 1)) == next);
            lemma_shift_in(buf, d);
            assert((buf * 32 + d) % 0x1_0000_0000 == next % 0x1_0000_0000);
            lemma_step(value, d as nat, bits as nat);
        }
        buf = (buf << 5u32) | d;
        bits = bits + 5;
        if bits >= 8 {
            bits = bits - 8;
            proof {
                lemma_byte(buf, next, bits);
                assert((buf >> bits) & 0xff <= 0xff) by (bit_vector);
            }
            let byte: u8 = ((buf >> bits) & 0xff) as u8;
            let ghost before = out@;
            out.push(byte);
            proof {
                assert(out@.drop_last() == before);
            }
        }
        i = i + 1;
    }
    proof {
        assert(input@.take(n as int) == input@);
    }
    Some(out)
}

} // verus!
