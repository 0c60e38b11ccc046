//! Info-hashes and their normal form.
use vstd::arithmetic::power2::*;
use vstd::prelude::*;

use crate::base32::{base32_decode, base32_digit, base32_value, bytes_value, is_base32};
use crate::bindings::{hex_digit_lower, hex_encode, hex_encoded, is_alphanumeric};
use crate::text::{
    chars_of, is_white_space, lower, lower_char, to_lower, trim, trimmed, trimmed_end,
    trimmed_start, upper_char,
};

verus! {

/// Whether a character is a hexadecimal digit, in either case.
pub open spec fn is_hex_digit(c: char) -> bool {
    '0' <= c <= '9' || 'a' <= c <= 'f' || 'A' <= c <= 'F'
}

/// Whether a text is an info-hash of forty hexadecimal digits.
pub open spec fn is_hex_hash(s: Seq<char>) -> bool {
    s.len() == 40 && forall|i: int| 0 <= i < s.len() ==> is_hex_digit(#[trigger] s[i])
}

/// Whether a text is an info-hash of thirty-two base32 digits.
pub open spec fn is_base32_hash(s: Seq<char>) -> bool {
    s.len() == 32 && is_base32(s)
}

/// A number in so many small hexadecimal digits.
pub open spec fn hex_number(n: nat, width: nat) -> Seq<char>
    decreases width,
{
    if width == 0 {
        Seq::empty()
    } else {
        hex_number(n / 16, (width - 1) as nat).push(hex_digit_lower(n % 16))
    }
}

/// The normal form of an info-hash: forty small hexadecimal digits for a
/// hexadecimal or base32 hash, and the text in lower case for anything else;
/// without white space around it.
pub open spec fn normalized_hash(raw: Seq<char>) -> Seq<char> {
    let t = trimmed(raw);
    if !is_hex_hash(t) && is_base32_hash(t) {
        hex_number(base32_value(t), 40)
    } else {
        lower(t)
    }
}

/// The digits of a row of bytes are those of its number.
proof fn lemma_hex_of_bytes(b: Seq<u8>)
    ensures
        hex_encoded(b) == hex_number(bytes_value(b), 2 * b.len()),
    decreases b.len(),
{
    if b.len() > 0 {
        lemma_hex_of_bytes(b.drop_last());
        let n = bytes_value(b);
        let rest = bytes_value(b.drop_last());
        let last = b.last();
        assert(n == rest * 256 + last as nat);
        assert(n % 16 == (last % 16) as nat);
        assert(n / 16 == rest * 16 + (last / 16) as nat);
        assert((n / 16) % 16 == (last / 16) as nat);
        assert((n / 16) / 16 == rest);
        let w = 2 * b.len();
        assert(hex_number(n, w) == hex_number(n / 16, (w - 1) as nat).push(
            hex_digit_lower(n % 16),
        ));
        assert(hex_number(n / 16, (w - 1) as nat) == hex_number(rest, (w - 2) as nat).push(
            hex_digit_lower((n / 16) % 16),
        ));
    }
}

fn all_hex(cs: &Vec<char>) -> (r: bool)
    ensures
        r == forall|i: int| 0 <= i < cs@.len() ==> is_hex_digit(#[trigger] cs@[i]),
{
    let n: usize = cs.len();
    let mut i: usize = 0;
    while i < n
        invariant
            i <= n,
            n == cs@.len(),
            forall|j: int| 0 <= j < i ==> is_hex_digit(#[trigger] cs@[j]),
        decreases n - i,
    {
        let c = cs[i];
        if !(('0' <= c && c <= '9') || ('a' <= c && c <= 'f') || ('A' <= c && c <= 'F')) {
            proof {
                assert(!is_hex_digit(cs@[i as int]));
            }
            return false;
        }
        i = i + 1;
    }
    true
}

/// Tells whether a text, with white space around it or without, is an
/// info-hash of forty hexadecimal or thirty-two base32 digits.
pub fn names_info_hash(raw: &str) -> (r: bool)
    ensures
        r == (is_hex_hash(trimmed(raw@)) || is_base32_hash(trimmed(raw@))),
{
    let t = trim(raw);
    let cs = chars_of(t);
    (cs.len() == 40 && all_hex(&cs)) || (cs.len() == 32 && base32_decode(t).is_some())
}

/// Brings an info-hash to its normal form.
pub fn normalize_info_hash(raw: &str) -> (r: String)
    ensures
        r@ == normalized_hash(raw@),
{
    let t = trim(raw);
    let cs = chars_of(t);
    if cs.len() == 40 && all_hex(&cs) {
        return to_lower(t);
    }
    if cs.len() == 32 {
        match base32_decode(t) {
            Some(bytes) => {
                proof {
                    lemma_hex_of_bytes(bytes@);
                    lemma2_to64();
                    assert(pow2(0) == 1);
                    assert(base32_value(t@) / 1 == base32_value(t@));
                }
                return hex_encode(&bytes);
            },
            None => {},
        }
    }
    to_lower(t)
}

// ---------------------------------------------------------------------------
// Laws
// ---------------------------------------------------------------------------

/// Whether a text is an info-hash in normal form.
pub open spec fn is_normal_hash(s: Seq<char>) -> bool {
    is_hex_hash(s) && lower(s) == s
}

proof fn lemma_hex_number(n: nat, width: nat)
    ensures
        hex_number(n, width).len() == width,
        forall|i: int|
            0 <= i < width ==> is_hex_digit(#[trigger] hex_number(n, width)[i]) && lower_char(
                hex_number(n, width)[i],
            ) == hex_number(n, width)[i],
    decreases width,
{
    if width > 0 {
        lemma_hex_number(n / 16, (width - 1) as nat);
    }
}

/// A hexadecimal or base32 hash, with white space around it or without, comes
/// out as forty small hexadecimal digits.
pub proof fn hashes_become_normal(raw: Seq<char>)
    requires
        is_hex_hash(trimmed(raw)) || is_base32_hash(trimmed(raw)),
    ensures
        is_normal_hash(normalized_hash(raw)),
{
    let t = trimmed(raw);
    if is_hex_hash(t) {
        let l = lower(t);
        assert forall|i: int| 0 <= i < l.len() implies is_hex_digit(#[trigger] l[i]) by {
            assert(is_hex_digit(t[i]));
        }
        lemma_lower_twice(t);
    } else {
        let n = base32_value(t);
        lemma_hex_number(n, 40);
        assert(lower(hex_number(n, 40)) =~= hex_number(n, 40));
    }
}

/// Lower case stays lower case.
proof fn lemma_lower_twice(s: Seq<char>)
    ensures
        lower(lower(s)) == lower(s),
{
    assert(lower(lower(s)) =~= lower(s));
}

/// White space at neither end.
spec fn is_tight(s: Seq<char>) -> bool {
    s.len() > 0 ==> !is_white_space(s[0]) && !is_white_space(s.last())
}

proof fn lemma_trimmed_start(s: Seq<char>)
    ensures
        trimmed_start(s).len() > 0 ==> !is_white_space(trimmed_start(s)[0]),
    decreases s.len(),
{
    if s.len() > 0 && is_white_space(s[0]) {
        lemma_trimmed_start(s.drop_first());
    }
}

proof fn lemma_trimmed_end(s: Seq<char>)
    ensures
        trimmed_end(s).len() <= s.len(),
        trimmed_end(s).len() > 0 ==> !is_white_space(trimmed_end(s).last()) && trimmed_end(s)[0]
            == s[0],
    decreases s.len(),
{
    if s.len() > 0 && is_white_space(s.last()) {
        lemma_trimmed_end(s.drop_last());
    }
}

/// Trimmed text has white space at neither end.
proof fn lemma_trimmed_is_tight(s: Seq<char>)
    ensures
        is_tight(trimmed(s)),
{
    lemma_trimmed_start(s);
    lemma_trimmed_end(trimmed_start(s));
}

/// Text with white space at neither end is trimmed already.
proof fn lemma_tight_is_trimmed(s: Seq<char>)
    requires
        is_tight(s),
    ensures
        trimmed(s) == s,
{
}

proof fn lemma_lower_is_tight(s: Seq<char>)
    requires
        is_tight(s),
    ensures
        is_tight(lower(s)),
{
    if s.len() > 0 {
        assert(lower(s)[0] == lower_char(s[0]));
        assert(lower(s).last() == lower_char(s.last()));
    }
}

/// Lower case leaves the digits of a hash what they are.
proof fn lemma_lower_keeps_kind(s: Seq<char>)
    ensures
        is_hex_hash(lower(s)) == is_hex_hash(s),
        is_base32_hash(lower(s)) == is_base32_hash(s),
        is_base32(s) ==> base32_value(lower(s)) == base32_value(s),
{
    let l = lower(s);
    assert(forall|i: int| 0 <= i < s.len() ==> #[trigger] l[i] == lower_char(s[i]));
    if is_hex_hash(s) {
        assert forall|i: int| 0 <= i < l.len() implies is_hex_digit(#[trigger] l[i]) by {
            assert(is_hex_digit(s[i]));
        }
    }
    if is_hex_hash(l) {
        assert forall|i: int| 0 <= i < s.len() implies is_hex_digit(#[trigger] s[i]) by {
            assert(is_hex_digit(l[i]));
        }
    }
    assert forall|c: char| base32_digit(#[trigger] lower_char(c)) == base32_digit(c) by {
        assert(upper_char(lower_char(c)) == upper_char(c));
    }
    if is_base32_hash(s) {
        assert forall|i: int| 0 <= i < l.len() implies base32_digit(#[trigger] l[i]) is Some by {
            assert(base32_digit(s[i]) is Some);
        }
    }
    if is_base32_hash(l) {
        assert forall|i: int| 0 <= i < s.len() implies base32_digit(#[trigger] s[i]) is Some by {
            assert(base32_digit(l[i]) is Some);
        }
    }
    lemma_lower_keeps_value(s);
}

proof fn lemma_lower_keeps_value(s: Seq<char>)
    ensures
        base32_value(lower(s)) == base32_value(s),
    decreases s.len(),
{
    if s.len() > 0 {
        lemma_lower_keeps_value(s.drop_last());
        assert(lower(s).drop_last() =~= lower(s.drop_last()));
        assert(lower(s).last() == lower_char(s.last()));
        assert(upper_char(lower_char(s.last())) == upper_char(s.last()));
    }
}

/// The case of the letters does not matter.
pub proof fn case_does_not_matter(raw: Seq<char>)
    ensures
        normalized_hash(lower(raw)) == normalized_hash(raw),
{
    lemma_lower_trims(raw);
    let t = trimmed(raw);
    lemma_lower_keeps_kind(t);
    lemma_lower_twice(t);
}

proof fn lemma_lower_trims_start(s: Seq<char>)
    ensures
        trimmed_start(lower(s)) == lower(trimmed_start(s)),
    decreases s.len(),
{
    if s.len() > 0 {
        assert(lower(s)[0] == lower_char(s[0]));
        if is_white_space(s[0]) {
            lemma_lower_trims_start(s.drop_first());
            assert(lower(s).drop_first() =~= lower(s.drop_first()));
        }
    }
}

proof fn lemma_lower_trims_end(s: Seq<char>)
    ensures
        trimmed_end(lower(s)) == lower(trimmed_end(s)),
    decreases s.len(),
{
    if s.len() > 0 {
        assert(lower(s).last() == lower_char(s.last()));
        if is_white_space(s.last()) {
            lemma_lower_trims_end(s.drop_last());
            assert(lower(s).drop_last() =~= lower(s.drop_last()));
        }
    }
}

proof fn lemma_lower_trims(s: Seq<char>)
    ensures
        trimmed(lower(s)) == lower(trimmed(s)),
{
    lemma_lower_trims_start(s);
    lemma_lower_trims_end(trimmed_start(s));
}

/// A hash in lower case is still one, is made of letters and digits alone, and
/// has no white space around it.
pub proof fn lower_hashes_are_hashes(hash: Seq<char>)
    requires
        is_hex_hash(hash) || is_base32_hash(hash),
    ensures
        is_hex_hash(lower(hash)) || is_base32_hash(lower(hash)),
        is_alphanumeric(lower(hash)),
        trimmed(lower(hash)) == lower(hash),
{
    let l = lower(hash);
    lemma_lower_keeps_kind(hash);
    assert forall|i: int| 0 <= i < l.len() implies '0' <= #[trigger] l[i] <= '9' || 'A' <= l[i]
        <= 'Z' || 'a' <= l[i] <= 'z' by {
        if is_hex_hash(l) {
            assert(is_hex_digit(l[i]));
        } else {
            assert(base32_digit(l[i]) is Some);
        }
    }
    assert(is_alphanumeric(l));
    assert(!is_white_space(l[0]) && !is_white_space(l.last()));
    lemma_tight_is_trimmed(l);
}

/// A normal form is in lower case.
pub proof fn normal_form_is_lower(raw: Seq<char>)
    ensures
        lower(normalized_hash(raw)) == normalized_hash(raw),
{
    let t = trimmed(raw);
    if !is_hex_hash(t) && is_base32_hash(t) {
        hashes_become_normal(raw);
    } else {
        lemma_lower_twice(t);
    }
}

/// Bringing a normal form to its normal form changes nothing.
pub proof fn normal_form_is_stable(raw: Seq<char>)
    ensures
        normalized_hash(normalized_hash(raw)) == normalized_hash(raw),
{
    let t = trimmed(raw);
    let n = normalized_hash(raw);
    lemma_trimmed_is_tight(raw);
    if !is_hex_hash(t) && is_base32_hash(t) {
        hashes_become_normal(raw);
        assert(is_hex_digit(n[0]) && is_hex_digit(n.last()));
        lemma_tight_is_trimmed(n);
    } else {
        lemma_lower_is_tight(t);
        lemma_tight_is_trimmed(n);
        lemma_lower_keeps_kind(t);
        lemma_lower_twice(t);
    }
}

} // verus!
