//! Letters, white space, lines and numbers.
use vstd::arithmetic::power::*;
use vstd::arithmetic::power2::*;
use vstd::prelude::*;
use vstd::utf8::*;

use crate::base32::{base32_digit, base32_value, bytes_value, decodes_to, is_base32};
use crate::bindings::{is_header_byte, is_header_value, pair_texts};
use crate::info_hash::{
    hex_number, is_base32_hash, is_hex_hash, is_normal_hash, normalized_hash,
};
use crate::json::{
    bool_or_null, double_or_null, i64_or_null, item_views, json_view, member_views, text_or_null, u32_or_null, Double, Json,
    JsonView,
};
use crate::text::{
    after_last_dot, all_digits, begins, decimal, digits_value, ends, is_break, is_digit, is_white_space, lines,
    lines_from, lower, next_line_feed, no_breaks, number_of, number_within, opt_text, signed_decimal, texts, trimmed,
    trimmed_end, trimmed_start, without_end_slashes,
};

verus! {

/// Lower case moves the capitals of ASCII by thirty-two, and leaves every other
/// character where it is.
pub proof fn lower_case_is_ascii(s: Seq<char>, i: int)
    requires
        0 <= i < s.len(),
    ensures
        lower(s).len() == s.len(),
        65 <= s[i] as int <= 90 ==> lower(s)[i] as int == s[i] as int + 32,
        !(65 <= s[i] as int <= 90) ==> lower(s)[i] == s[i],
{
}

/// Texts that differ in the case of ASCII letters alone have the same lower
/// case, and no others have.
pub proof fn same_lower_case(a: Seq<char>, b: Seq<char>)
    ensures
        lower(a) == lower(b) <==> a.len() == b.len() && forall|i: int|
            0 <= i < a.len() ==> #[trigger] a[i] == b[i] || (65 <= a[i] as int <= 90 && b[i] as int
                == a[i] as int + 32) || (65 <= b[i] as int <= 90 && a[i] as int == b[i] as int + 32),
{
    if lower(a) == lower(b) {
        assert(lower(a).len() == lower(b).len());
        assert forall|i: int| 0 <= i < a.len() implies #[trigger] a[i] == b[i] || (65 <= a[i] as int
            <= 90 && b[i] as int == a[i] as int + 32) || (65 <= b[i] as int <= 90 && a[i] as int
            == b[i] as int + 32) by {
            assert(lower(a)[i] == lower(b)[i]);
        }
    }
    if a.len() == b.len() && forall|i: int|
        0 <= i < a.len() ==> #[trigger] a[i] == b[i] || (65 <= a[i] as int <= 90 && b[i] as int
            == a[i] as int + 32) || (65 <= b[i] as int <= 90 && a[i] as int == b[i] as int + 32) {
        assert(lower(a) =~= lower(b));
    }
}

/// Beginnings and ends of a text.
pub proof fn beginnings_and_ends(s: Seq<char>, t: Seq<char>)
    ensures
        begins(s, t) <==> t.is_prefix_of(s),
        ends(s, t) <==> t.is_suffix_of(s),
{
    if t.len() <= s.len() {
        assert(s.take(t.len() as int) =~= s.subrange(0, t.len() as int));
        assert(s.skip(s.len() - t.len()) =~= s.subrange(s.len() - t.len(), s.len() as int));
    }
}

/// The white space of Unicode.
pub proof fn white_space_is_unicode(c: char)
    ensures
        is_white_space(c) <==> (9 <= c as int <= 13 || c as int == 32 || c as int == 133 || c as int
            == 160 || c as int == 5760 || 8192 <= c as int <= 8202 || c as int == 8232 || c as int
            == 8233 || c as int == 8239 || c as int == 8287 || c as int == 12288),
{
}

/// Trimming the beginning drops white space, and stops at the first character
/// that is none.
pub proof fn trimming_the_start(s: Seq<char>)
    ensures
        trimmed_start(s).is_suffix_of(s),
        forall|i: int|
            0 <= i < s.len() - trimmed_start(s).len() ==> is_white_space(#[trigger] s[i]),
        trimmed_start(s).len() > 0 ==> !is_white_space(trimmed_start(s)[0]),
    decreases s.len(),
{
    if s.len() > 0 && is_white_space(s[0]) {
        let rest = s.drop_first();
        trimming_the_start(rest);
        assert forall|i: int| 0 <= i < s.len() - trimmed_start(s).len() implies is_white_space(
            #[trigger] s[i],
        ) by {
            if i > 0 {
                assert(rest[i - 1] == s[i]);
            }
        }
        let k = trimmed_start(s).len() as int;
        assert(rest.subrange(rest.len() - k, rest.len() as int) =~= s.subrange(
            s.len() - k,
            s.len() as int,
        ));
    } else {
        assert(s.subrange(0, s.len() as int) =~= s);
    }
}

/// Trimming the end drops white space, and stops at the last character that is
/// none.
pub proof fn trimming_the_end(s: Seq<char>)
    ensures
        trimmed_end(s).is_prefix_of(s),
        forall|i: int| trimmed_end(s).len() <= i < s.len() ==> is_white_space(#[trigger] s[i]),
        trimmed_end(s).len() > 0 ==> !is_white_space(trimmed_end(s).last()),
    decreases s.len(),
{
    if s.len() > 0 && is_white_space(s.last()) {
        let rest = s.drop_last();
        trimming_the_end(rest);
        assert forall|i: int| trimmed_end(s).len() <= i < s.len() implies is_white_space(
            #[trigger] s[i],
        ) by {
            if i < s.len() - 1 {
                assert(rest[i] == s[i]);
            }
        }
        let k = trimmed_end(s).len() as int;
        assert(rest.subrange(0, k) =~= s.subrange(0, k));
    } else {
        assert(s.subrange(0, s.len() as int) =~= s);
    }
}

/// Trimming leaves a text between two pieces of white space, with white space at
/// neither end of it.
pub proof fn trimming_both_ends(before: Seq<char>, s: Seq<char>, after: Seq<char>)
    requires
        forall|i: int| 0 <= i < before.len() ==> is_white_space(#[trigger] before[i]),
        forall|i: int| 0 <= i < after.len() ==> is_white_space(#[trigger] after[i]),
        s.len() > 0 ==> !is_white_space(s[0]) && !is_white_space(s.last()),
    ensures
        trimmed(before + s + after) == s,
    decreases before.len() + after.len(),
{
    let all = before + s + after;
    if before.len() > 0 {
        assert(is_white_space(all[0])) by {
            assert(all[0] == before[0]);
        }
        let rest = before.drop_first();
        assert forall|i: int| 0 <= i < rest.len() implies is_white_space(#[trigger] rest[i]) by {
            assert(is_white_space(before[i + 1]));
        }
        assert(all.drop_first() =~= rest + s + after);
        trimming_both_ends(rest, s, after);
    } else if s.len() == 0 {
        if after.len() > 0 {
            assert(is_white_space(all[0])) by {
                assert(all[0] == after[0]);
            }
            let rest = after.drop_first();
            assert forall|i: int| 0 <= i < rest.len() implies is_white_space(#[trigger] rest[i]) by {
                assert(is_white_space(after[i + 1]));
            }
            assert(all.drop_first() =~= before + s + rest);
            trimming_both_ends(before, s, rest);
        } else {
            assert(all =~= s);
        }
    } else {
        assert(all[0] == s[0]);
        assert(trimmed_start(all) == all);
        lemma_trim_end(s, after);
        assert(all =~= s + after);
    }
}

proof fn lemma_trim_end(s: Seq<char>, after: Seq<char>)
    requires
        s.len() > 0,
        !is_white_space(s.last()),
        forall|i: int| 0 <= i < after.len() ==> is_white_space(#[trigger] after[i]),
    ensures
        trimmed_end(s + after) == s,
    decreases after.len(),
{
    let all = s + after;
    if after.len() > 0 {
        assert(all.last() == after[after.len() - 1]);
        let rest = after.drop_last();
        assert forall|i: int| 0 <= i < rest.len() implies is_white_space(#[trigger] rest[i]) by {
            assert(is_white_space(after[i]));
        }
        assert(all.drop_last() =~= s + rest);
        lemma_trim_end(s, rest);
    } else {
        assert(all =~= s);
    }
}

/// Dropping the slashes at the end drops all of them and nothing else.
pub proof fn dropping_slashes(s: Seq<char>)
    ensures
        without_end_slashes(s).is_prefix_of(s),
        forall|i: int| without_end_slashes(s).len() <= i < s.len() ==> #[trigger] s[i] == '/',
        without_end_slashes(s).len() > 0 ==> without_end_slashes(s).last() != '/',
    decreases s.len(),
{
    if s.len() > 0 && s.last() == '/' {
        let rest = s.drop_last();
        dropping_slashes(rest);
        assert forall|i: int| without_end_slashes(s).len() <= i < s.len() implies #[trigger] s[i]
            == '/' by {
            if i < s.len() - 1 {
                assert(rest[i] == s[i]);
            }
        }
        let k = without_end_slashes(s).len() as int;
        assert(rest.subrange(0, k) =~= s.subrange(0, k));
    } else {
        assert(s.subrange(0, s.len() as int) =~= s);
    }
}

/// The extension of a name is what follows its last dot, or the whole name.
pub proof fn extensions_follow_the_last_dot(s: Seq<char>)
    ensures
        after_last_dot(s).is_suffix_of(s),
        !after_last_dot(s).contains('.'),
        after_last_dot(s).len() < s.len() ==> s[s.len() - after_last_dot(s).len() - 1] == '.',
    decreases s.len(),
{
    if s.len() == 0 || s.last() == '.' {
        assert(s.subrange(s.len() as int, s.len() as int) =~= Seq::<char>::empty());
    } else {
        let rest = s.drop_last();
        extensions_follow_the_last_dot(rest);
        let r = after_last_dot(rest);
        let k = r.len() as int;
        assert(r.push(s.last()) =~= s.subrange(s.len() - k - 1, s.len() as int));
        if after_last_dot(s).contains('.') {
            let i = choose|i: int| 0 <= i < after_last_dot(s).len() && after_last_dot(s)[i] == '.';
            assert(r[i] == '.');
            assert(r.contains('.'));
        }
    }
}

proof fn lemma_feed_shifts(p: Seq<char>, q: Seq<char>, k: int)
    requires
        0 <= k <= q.len(),
    ensures
        next_line_feed(p + q, p.len() + k) == p.len() + next_line_feed(q, k),
        k <= next_line_feed(q, k) <= q.len(),
    decreases q.len() - k,
{
    if k < q.len() {
        assert((p + q)[p.len() + k] == q[k]);
        if q[k] != '\n' {
            lemma_feed_shifts(p, q, k + 1);
        }
    }
}

proof fn lemma_lines_shift(p: Seq<char>, q: Seq<char>, k: int)
    requires
        0 <= k <= q.len(),
    ensures
        lines_from(p + q, p.len() + k) == lines_from(q, k),
    decreases q.len() - k,
{
    if k < q.len() {
        lemma_feed_shifts(p, q, k);
        let end = next_line_feed(q, k);
        if end >= q.len() {
            assert((p + q).skip(p.len() + k) =~= q.skip(k));
        } else {
            assert((p + q).subrange(p.len() + k, p.len() + end) =~= q.subrange(k, end));
            lemma_lines_shift(p, q, end + 1);
        }
    }
}

proof fn lemma_feed_found(s: Seq<char>, from: int, end: int)
    requires
        0 <= from <= end <= s.len(),
        end < s.len() ==> s[end] == '\n',
        forall|i: int| from <= i < end ==> #[trigger] s[i] != '\n',
    ensures
        next_line_feed(s, from) == end,
    decreases end - from,
{
    if from < end {
        lemma_feed_found(s, from + 1, end);
    }
}

/// A text is split at its line feeds: the first line is what stands before the
/// first one, without a carriage return at its end, and the other lines are
/// those of what follows. What has no line feed is a line as it is, unless it
/// is empty.
pub proof fn lines_end_at_feeds(line: Seq<char>, rest: Seq<char>)
    requires
        !line.contains('\n'),
    ensures
        lines(line + seq!['\n'] + rest) == seq![
            if line.len() > 0 && line.last() == '\r' {
                line.drop_last()
            } else {
                line
            },
        ] + lines(rest),
        line.len() > 0 ==> lines(line) == seq![line],
        lines(Seq::empty()) == Seq::<Seq<char>>::empty(),
{
    assert forall|i: int| 0 <= i < line.len() implies #[trigger] line[i] != '\n' by {
        assert(line.contains(line[i]));
    }
    let p = line + seq!['\n'];
    let s = p + rest;
    let n = line.len() as int;
    assert(s =~= line + seq!['\n'] + rest);
    assert forall|i: int| 0 <= i < n implies #[trigger] s[i] != '\n' by {
        assert(s[i] == line[i]);
    }
    assert(s[n] == '\n');
    lemma_feed_found(s, 0, n);
    assert(s.subrange(0, n) =~= line);
    lemma_lines_shift(p, rest, 0);
    if n > 0 {
        lemma_feed_found(line, 0, n);
        assert(line.skip(0) =~= line);
    }
}

/// A row of digits is read in base ten.
pub proof fn digits_are_decimal(s: Seq<char>, c: char)
    requires
        48 <= c as int <= 57,
    ensures
        digits_value(Seq::empty()) == 0,
        digits_value(s.push(c)) == 10 * digits_value(s) + (c as int - 48),
        is_digit(c),
{
    assert(s.push(c).drop_last() =~= s);
}

/// The decimal form of a number is made of digits, is read as that number, and
/// has no leading zero.
pub proof fn decimals_are_read_back(n: nat)
    ensures
        all_digits(decimal(n)),
        digits_value(decimal(n)) == n,
        decimal(n).len() > 1 ==> decimal(n)[0] != '0',
    decreases n,
{
    reveal_with_fuel(digits_value, 2);
    if n < 10 {
        assert(decimal(n) =~= seq![(48 + n) as u8 as char]);
        assert(decimal(n).drop_last() =~= Seq::<char>::empty());
    } else {
        decimals_are_read_back(n / 10);
        let front = decimal(n / 10);
        let last = (48 + n % 10) as u8 as char;
        assert(decimal(n) == front.push(last));
        assert(decimal(n).drop_last() =~= front);
        assert forall|i: int| 0 <= i < decimal(n).len() implies is_digit(#[trigger] decimal(n)[i]) by {
            if i < front.len() {
                assert(is_digit(front[i]));
            }
        }
        if front.len() == 1 {
            assert(digits_value(front) == (front[0] as int - 48)) by {
                assert(front.drop_last() =~= Seq::<char>::empty());
            }
        }
    }
}

/// A number is read back from its decimal form, and is in a range exactly where
/// reading for the range gives it.
pub proof fn numbers_are_read_back(n: int, low: int, high: int)
    ensures
        number_of(signed_decimal(n), true) == Some(n),
        n >= 0 ==> number_of(signed_decimal(n), false) == Some(n),
        n < 0 ==> number_of(signed_decimal(n), false) is None,
        number_within(signed_decimal(n), true, low, high) == (if low <= n <= high {
            Some(n)
        } else {
            None
        }),
{
    if n < 0 {
        let d = decimal((-n) as nat);
        decimals_are_read_back((-n) as nat);
        let s = signed_decimal(n);
        assert(s =~= seq!['-'] + d);
        assert(s.drop_first() =~= d);
        assert(!is_digit('-'));
        assert(!all_digits(s)) by {
            assert(s[0] == '-');
        }
    } else {
        decimals_are_read_back(n as nat);
        assert(is_digit(decimal(n as nat)[0]));
    }
}

/// A row of the digits nought to nine, one at least.
pub open spec fn is_row_of_digits(s: Seq<char>) -> bool {
    s.len() > 0 && forall|i: int| 0 <= i < s.len() ==> 48 <= #[trigger] s[i] as int <= 57
}

/// A text is a number exactly where it is a row of digits behind one sign or
/// none; a minus counts as a sign only where it may, and turns the number round.
pub proof fn numbers_are_digits(s: Seq<char>, minus: bool)
    ensures
        number_of(s, minus) is Some <==> is_row_of_digits(s) || s.len() > 0 && (s[0] == '+' || (minus
            && s[0] == '-')) && is_row_of_digits(s.skip(1)),
        is_row_of_digits(s) ==> number_of(seq!['+'] + s, minus) == number_of(s, minus),
        is_row_of_digits(s) ==> number_of(seq!['-'] + s, true) == Some(
            -number_of(s, true)->Some_0,
        ),
        is_row_of_digits(s) ==> number_of(s, minus) == Some(digits_value(s)),
{
    lemma_row_of_digits(s);
    if s.len() > 0 {
        assert(s.skip(1) =~= s.drop_first());
        lemma_row_of_digits(s.skip(1));
    }
    assert((seq!['+'] + s).drop_first() =~= s);
    assert((seq!['-'] + s).drop_first() =~= s);
    if is_row_of_digits(s) {
        assert(48 <= s[0] as int <= 57);
    }
}

proof fn lemma_row_of_digits(s: Seq<char>)
    ensures
        all_digits(s) == is_row_of_digits(s),
{
    if all_digits(s) {
        assert forall|i: int| 0 <= i < s.len() implies 48 <= #[trigger] s[i] as int <= 57 by {
            assert(is_digit(s[i]));
        }
    }
    if is_row_of_digits(s) {
        assert forall|i: int| 0 <= i < s.len() implies is_digit(#[trigger] s[i]) by {
            assert(48 <= s[i] as int <= 57);
        }
    }
}

/// A double without its sign bit is at least one exactly between the bits of
/// one and those of infinity.
pub proof fn doubles_are_ordered_by_bits(d: Double)
    ensures
        d.spec_at_least_one() <==> 0x3ff0_0000_0000_0000 <= d.bits as int
            <= 0x7ff0_0000_0000_0000,
{
}

/// A text is a single line exactly where it has neither a line feed nor a
/// carriage return.
pub proof fn single_lines_have_no_ends(s: Seq<char>)
    ensures
        no_breaks(s) <==> !s.contains('\n') && !s.contains('\r'),
{
    if no_breaks(s) {
        assert forall|i: int| 0 <= i < s.len() implies s[i] != '\n' && s[i] != '\r' by {
            assert(!is_break(s[i]));
        }
    } else {
        let i = choose|i: int| 0 <= i < s.len() && is_break(#[trigger] s[i]);
        assert(s.contains(s[i]));
    }
}

/// A value that is there is told as it is, and one that is missing as null.
pub proof fn missing_values_are_null(
    s: String,
    n: i64,
    u: u32,
    b: bool,
    d: Double,
)
    ensures
        text_or_null(Some(s)) == JsonView::Str(s@),
        text_or_null(None) == JsonView::Null,
        i64_or_null(Some(n)) == JsonView::Int(n as int),
        i64_or_null(None) == JsonView::Null,
        u32_or_null(Some(u)) == JsonView::Int(u as int),
        u32_or_null(None) == JsonView::Null,
        bool_or_null(Some(b)) == JsonView::Bool(b),
        bool_or_null(None) == JsonView::Null,
        double_or_null(Some(d)) == JsonView::Double(d),
        double_or_null(None) == JsonView::Null,
        opt_text(Some(s)) == Some(s@),
        opt_text(None) == None::<Seq<char>>,
{
}

/// A document stands for what it holds: each item of a list at its place, and
/// each member of an object at its place under its name.
pub proof fn documents_stand_for_their_parts(
    items: Vec<Json>,
    members: Vec<(String, Json)>,
    i: int,
    n: i64,
    m: u64,
    s: String,
)
    ensures
        json_view(Json::Int(n)) == JsonView::Int(n as int),
        json_view(Json::UInt(m)) == JsonView::Int(m as int),
        json_view(Json::Str(s)) == JsonView::Str(s@),
        json_view(Json::Null) == JsonView::Null,
        json_view(Json::Array(items)) matches JsonView::Array(views) && views.len() == items@.len()
            && (0 <= i < items@.len() ==> views[i] == json_view(items@[i])),
        json_view(Json::Object(members)) matches JsonView::Object(views) && views.len()
            == members@.len() && (0 <= i < members@.len() ==> views[i] == (
            members@[i].0@,
            json_view(members@[i].1),
        )),
{
}

// ---------------------------------------------------------------------------
// Codes
// ---------------------------------------------------------------------------

/// The digits of base32: letters in either case count from nought, the digits
/// two to seven from twenty-six.
pub proof fn base32_digits(c: char)
    ensures
        65 <= c as int <= 90 ==> base32_digit(c) == Some((c as int - 65) as nat),
        97 <= c as int <= 122 ==> base32_digit(c) == Some((c as int - 97) as nat),
        50 <= c as int <= 55 ==> base32_digit(c) == Some((c as int - 50 + 26) as nat),
        !(65 <= c as int <= 90) && !(97 <= c as int <= 122) && !(50 <= c as int <= 55)
            ==> base32_digit(c) is None,
{
}

/// The number that base32 digits write, and the number that bytes write.
pub proof fn rows_are_numbers(s: Seq<char>, c: char, d: nat, b: Seq<u8>, x: u8)
    requires
        base32_digit(c) == Some(d),
    ensures
        base32_value(Seq::empty()) == 0,
        base32_value(s.push(c)) == 32 * base32_value(s) + d,
        bytes_value(Seq::empty()) == 0,
        bytes_value(b.push(x)) == 256 * bytes_value(b) + x,
{
    assert(s.push(c).drop_last() =~= s);
    assert(b.push(x).drop_last() =~= b);
}

/// The number that small hexadecimal digits write.
pub open spec fn hex_value(s: Seq<char>) -> int
    decreases s.len(),
{
    if s.len() == 0 {
        0
    } else {
        hex_value(s.drop_last()) * 16 + (if '0' <= s.last() <= '9' {
            s.last() as int - 48
        } else {
            s.last() as int - 87
        })
    }
}

proof fn lemma_hex_value(n: nat, width: nat)
    ensures
        hex_value(hex_number(n, width)) == (n as int) % pow(16, width),
        hex_number(n, width).len() == width,
        pow(16, width) > 0,
    decreases width,
{
    lemma_pow_positive(16, width);
    if width == 0 {
        lemma_pow0(16);
        assert((n as int) % 1 == 0);
    } else {
        let w = (width - 1) as nat;
        lemma_hex_value(n / 16, w);
        let front = hex_number(n / 16, w);
        let s = hex_number(n, width);
        assert(s.drop_last() =~= front);
        assert(0 <= n % 16 < 16);
        assert(hex_value(s) == hex_value(front) * 16 + n % 16);
        lemma_pow_adds(16, 1, w);
        lemma_pow1(16);
        let p = pow(16, w);
        assert(pow(16, width) == 16 * p);
        vstd::arithmetic::div_mod::lemma_mod_breakdown(n as int, 16, p);
        assert((n as int) % (16 * p) == 16 * ((n as int / 16) % p) + (n as int) % 16);
    }
}

proof fn lemma_base32_bound(s: Seq<char>)
    requires
        forall|i: int| 0 <= i < s.len() ==> base32_digit(#[trigger] s[i]) is Some,
    ensures
        base32_value(s) < pow(32, s.len()),
    decreases s.len(),
{
    lemma_pow0(32);
    if s.len() > 0 {
        let front = s.drop_last();
        assert forall|i: int| 0 <= i < front.len() implies base32_digit(#[trigger] front[i]) is Some by {
            assert(base32_digit(s[i]) is Some);
        }
        lemma_base32_bound(front);
        assert(base32_digit(s[s.len() - 1]) is Some);
        lemma_pow_adds(32, 1, front.len());
        lemma_pow1(32);
        assert(pow(32, s.len()) == 32 * pow(32, front.len()));
    }
}

/// A hash of forty hexadecimal digits comes out as those digits in lower case,
/// and one of thirty-two base32 digits as the forty hexadecimal digits of the
/// same number. Any other text comes out trimmed and in lower case.
pub proof fn hashes_keep_their_number(raw: Seq<char>)
    ensures
        is_hex_hash(trimmed(raw)) ==> normalized_hash(raw) == lower(trimmed(raw)),
        is_base32_hash(trimmed(raw)) ==> normalized_hash(raw).len() == 40 && hex_value(
            normalized_hash(raw),
        ) == base32_value(trimmed(raw)),
        !is_base32_hash(trimmed(raw)) ==> normalized_hash(raw) == lower(trimmed(raw)),
{
    let t = trimmed(raw);
    if is_base32_hash(t) {
        lemma_hex_value(base32_value(t), 40);
        lemma_base32_bound(t);
        lemma_pow_multiplies(2, 5, 32);
        lemma_pow_multiplies(2, 4, 40);
        assert(pow(2, 5) == 32 && pow(2, 4) == 16) by {
            reveal_with_fuel(pow, 6);
        }
        assert(pow(32, 32) == pow(16, 40));
        vstd::arithmetic::div_mod::lemma_small_mod(base32_value(t), pow(16, 40) as nat);
    }
}

/// What a hexadecimal hash and a base32 hash are.
pub proof fn kinds_of_hashes(s: Seq<char>)
    ensures
        is_hex_hash(s) <==> s.len() == 40 && forall|i: int|
            0 <= i < s.len() ==> 48 <= #[trigger] s[i] as int <= 57 || 97 <= s[i] as int <= 102 || 65
                <= s[i] as int <= 70,
        is_base32_hash(s) <==> s.len() == 32 && forall|i: int|
            0 <= i < s.len() ==> 65 <= #[trigger] s[i] as int <= 90 || 97 <= s[i] as int <= 122 || 50
                <= s[i] as int <= 55,
{
    if is_hex_hash(s) {
        assert forall|i: int| 0 <= i < s.len() implies 48 <= #[trigger] s[i] as int <= 57 || 97
            <= s[i] as int <= 102 || 65 <= s[i] as int <= 70 by {
            assert(crate::info_hash::is_hex_digit(s[i]));
        }
    }
    if is_base32_hash(s) {
        assert forall|i: int| 0 <= i < s.len() implies 65 <= #[trigger] s[i] as int <= 90 || 97
            <= s[i] as int <= 122 || 50 <= s[i] as int <= 55 by {
            assert(base32_digit(s[i]) is Some);
        }
    }
    if s.len() == 32 && forall|i: int|
        0 <= i < s.len() ==> 65 <= #[trigger] s[i] as int <= 90 || 97 <= s[i] as int <= 122 || 50
            <= s[i] as int <= 55 {
        assert forall|i: int| 0 <= i < s.len() implies base32_digit(#[trigger] s[i]) is Some by {
            assert(65 <= s[i] as int <= 90 || 97 <= s[i] as int <= 122 || 50 <= s[i] as int <= 55);
        }
    }
}

/// A decoded text is as many whole bytes as its digits fill, and their number is
/// that of the digits without the bits that are left over.
pub proof fn decoding_drops_loose_bits(s: Seq<char>, out: Seq<u8>)
    requires
        decodes_to(s, out),
    ensures
        8 * out.len() <= 5 * s.len() < 8 * out.len() + 8,
        bytes_value(out) == base32_value(s) / pow2((5 * s.len() - 8 * out.len()) as nat),
{
    let n = (s.len() * 5) as int;
    assert(n % 8 == n - 8 * (n / 8));
    assert((s.len() * 5 % 8) as nat == (5 * s.len() - 8 * out.len()) as nat);
}

/// A text is base32 exactly where each of its characters is a digit of it.
pub proof fn base32_is_made_of_digits(s: Seq<char>)
    ensures
        is_base32(s) <==> forall|i: int|
            0 <= i < s.len() ==> 65 <= #[trigger] s[i] as int <= 90 || 97 <= s[i] as int <= 122 || 50
                <= s[i] as int <= 55,
{
    if is_base32(s) {
        assert forall|i: int| 0 <= i < s.len() implies 65 <= #[trigger] s[i] as int <= 90 || 97
            <= s[i] as int <= 122 || 50 <= s[i] as int <= 55 by {
            assert(base32_digit(s[i]) is Some);
        }
    }
    if forall|i: int|
        0 <= i < s.len() ==> 65 <= #[trigger] s[i] as int <= 90 || 97 <= s[i] as int <= 122 || 50
            <= s[i] as int <= 55 {
        assert forall|i: int| 0 <= i < s.len() implies base32_digit(#[trigger] s[i]) is Some by {
            assert(65 <= s[i] as int <= 90 || 97 <= s[i] as int <= 122 || 50 <= s[i] as int <= 55);
        }
    }
}

/// A hash in normal form is forty small hexadecimal digits.
pub proof fn normal_hashes_are_small_digits(s: Seq<char>, i: int)
    requires
        is_normal_hash(s),
        0 <= i < s.len(),
    ensures
        s.len() == 40,
        48 <= s[i] as int <= 57 || 97 <= s[i] as int <= 102,
{
    assert(crate::info_hash::is_hex_digit(s[i]));
    assert(lower(s)[i] == s[i]);
}

/// A text may be a header's value exactly where each byte of it is a tab or no
/// control byte.
pub proof fn header_values_have_no_controls(s: Seq<char>)
    ensures
        is_header_value(s) <==> forall|i: int|
            0 <= i < encode_utf8(s).len() ==> #[trigger] encode_utf8(s)[i] == 9 || (encode_utf8(
                s,
            )[i] >= 32 && encode_utf8(s)[i] != 127),
{
    let b = encode_utf8(s);
    if is_header_value(s) {
        assert forall|i: int| 0 <= i < b.len() implies #[trigger] b[i] == 9 || (b[i] >= 32 && b[i]
            != 127) by {
            assert(is_header_byte(b[i]));
        }
    } else {
        let i = choose|i: int| 0 <= i < b.len() && !is_header_byte(#[trigger] b[i]);
        assert(!(b[i] == 9 || (b[i] >= 32 && b[i] != 127)));
    }
}

/// A list stands for its members, one for one and in order.
pub proof fn lists_stand_for_their_members(
    v: Seq<String>,
    pairs: Seq<(String, String)>,
    items: Seq<Json>,
    members: Seq<(String, Json)>,
    i: int,
)
    ensures
        texts(v).len() == v.len(),
        0 <= i < v.len() ==> texts(v)[i] == v[i]@,
        pair_texts(pairs).len() == pairs.len(),
        0 <= i < pairs.len() ==> pair_texts(pairs)[i] == (pairs[i].0@, pairs[i].1@),
        item_views(items).len() == items.len(),
        0 <= i < items.len() ==> item_views(items)[i] == json_view(items[i]),
        member_views(members).len() == members.len(),
        0 <= i < members.len() ==> member_views(members)[i] == (
            members[i].0@,
            json_view(members[i].1),
        ),
{
}

} // verus!
