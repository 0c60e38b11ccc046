//! Text operations with exact contracts over sequences of characters.
use vstd::prelude::*;
use vstd::string::*;

verus! {

/// `String::push` appends the character to the end of the string.
pub assume_specification[ String::push ](s: &mut String, c: char)
    ensures
        final(s)@ == old(s)@.push(c),
;

/// The characters of a string.
pub fn chars_of(s: &str) -> (r: Vec<char>)
    ensures
        r@ == s@,
{
    let mut out: Vec<char> = Vec::new();
    for c in it: s.chars()
        invariant
            out@ == it.seq().take(it.index() as int),
            it.seq() == s@,
    {
        proof {
            assert(it.seq().take(it.index() + 1) == it.seq().take(it.index() as int).push(c));
        }
        out.push(c);
    }
    out
}

/// Whether two strings hold the same characters.
pub fn same_text(a: &str, b: &str) -> (r: bool)
    ensures
        r == (a@ == b@),
{
    a.to_owned() == b.to_owned()
}

/// A copy of an optional string.
pub fn copy_opt(s: &Option<String>) -> (r: Option<String>)
    ensures
        r == *s,
{
    match s {
        Some(text) => Some(text.clone()),
        None => None,
    }
}

/// The characters of an optional string.
pub open spec fn opt_text(s: Option<String>) -> Option<Seq<char>> {
    match s {
        Some(text) => Some(text@),
        None => None,
    }
}

/// The characters of an optional string slice.
pub open spec fn opt_str(s: Option<&str>) -> Option<Seq<char>> {
    match s {
        Some(text) => Some(text@),
        None => None,
    }
}

// ---------------------------------------------------------------------------
// ASCII case
// ---------------------------------------------------------------------------

/// The ASCII lower-case equivalent of a character.
pub open spec fn lower_char(c: char) -> char {
    if 'A' <= c <= 'Z' {
        (c as u8 + 32) as u8 as char
    } else {
        c
    }
}

/// The ASCII upper-case equivalent of a character.
pub open spec fn upper_char(c: char) -> char {
    if 'a' <= c <= 'z' {
        (c as u8 - 32) as u8 as char
    } else {
        c
    }
}

/// The text with every ASCII capital made small.
pub open spec fn lower(s: Seq<char>) -> Seq<char> {
    s.map_values(|c: char| lower_char(c))
}

/// The ASCII lower-case copy of a string; other characters stay.
pub fn to_lower(s: &str) -> (r: String)
    ensures
        r@ == lower(s@),
{
    let mut out = String::new();
    for c in it: s.chars()
        invariant
            out@ == lower(it.seq().take(it.index() as int)),
            it.seq() == s@,
    {
        let l: char = if 'A' <= c && c <= 'Z' {
            (c as u8 + 32) as char
        } else {
            c
        };
        proof {
            let n = it.index() as int;
            assert(it.seq().take(n + 1) == it.seq().take(n).push(c));
            assert(lower(it.seq().take(n + 1)) == lower(it.seq().take(n)).push(lower_char(c)));
        }
        out.push(l);
    }
    proof {
        assert(s@.take(s@.len() as int) == s@);
    }
    out
}

// ---------------------------------------------------------------------------
// Prefixes, suffixes and white space
// ---------------------------------------------------------------------------

/// Whether `s` begins with `prefix`.
pub open spec fn begins(s: Seq<char>, prefix: Seq<char>) -> bool {
    prefix.len() <= s.len() && s.take(prefix.len() as int) == prefix
}

/// Whether `s` ends with `suffix`.
pub open spec fn ends(s: Seq<char>, suffix: Seq<char>) -> bool {
    suffix.len() <= s.len() && s.skip(s.len() - suffix.len()) == suffix
}

/// Whether a string begins with a prefix.
pub fn starts_with(s: &str, prefix: &str) -> (r: bool)
    ensures
        r == begins(s@, prefix@),
{
    let n: usize = s.unicode_len();
    let k: usize = prefix.unicode_len();
    if k > n {
        return false;
    }
    let head = s.substring_char(0, k);
    proof {
        assert(s@.subrange(0, k as int) == s@.take(k as int));
    }
    same_text(head, prefix)
}

/// Whether a string ends with a suffix.
pub fn ends_with(s: &str, suffix: &str) -> (r: bool)
    ensures
        r == ends(s@, suffix@),
{
    let n: usize = s.unicode_len();
    let k: usize = suffix.unicode_len();
    if k > n {
        return false;
    }
    let tail = s.substring_char(n - k, n);
    proof {
        assert(s@.subrange(n - k, n as int) == s@.skip(n - k));
    }
    same_text(tail, suffix)
}

/// Whether a pattern stands at a position of a row of characters.
pub fn stands_at(cs: &Vec<char>, at: usize, pattern: &Vec<char>) -> (r: bool)
    requires
        at <= cs@.len(),
    ensures
        r == begins(cs@.skip(at as int), pattern@),
{
    let n: usize = cs.len();
    let k: usize = pattern.len();
    let ghost rest = cs@.skip(at as int);
    if n - at < k {
        return false;
    }
    let mut i: usize = 0;
    while i < k
        invariant
            i <= k,
            k == pattern@.len(),
            n == cs@.len(),
            at + k <= n,
            rest == cs@.skip(at as int),
            forall|j: int| 0 <= j < i ==> #[trigger] pattern@[j] == rest[j],
        decreases k - i,
    {
        if cs[at + i] != pattern[i] {
            proof {
                assert(rest.take(k as int)[i as int] == cs@[at + i]);
            }
            return false;
        }
        i = i + 1;
    }
    proof {
        assert(rest.take(k as int) =~= pattern@);
    }
    true
}

/// What follows a prefix, where the string begins with it.
pub fn strip_prefix<'a>(s: &'a str, prefix: &str) -> (r: Option<&'a str>)
    ensures
        r is Some <==> begins(s@, prefix@),
        r matches Some(rest) ==> rest@ == s@.skip(prefix@.len() as int),
{
    if starts_with(s, prefix) {
        let n: usize = s.unicode_len();
        let k: usize = prefix.unicode_len();
        proof {
            assert(s@.subrange(k as int, n as int) == s@.skip(k as int));
        }
        Some(s.substring_char(k, n))
    } else {
        None
    }
}

/// The characters with the Unicode property `White_Space`.
pub open spec fn is_white_space(c: char) -> bool {
    let n = c as u32;
    ||| 0x09 <= n <= 0x0d
    ||| n == 0x20
    ||| n == 0x85
    ||| n == 0xa0
    ||| n == 0x1680
    ||| 0x2000 <= n <= 0x200a
    ||| n == 0x2028
    ||| n == 0x2029
    ||| n == 0x202f
    ||| n == 0x205f
    ||| n == 0x3000
}

fn white_space(c: char) -> (r: bool)
    ensures
        r == is_white_space(c),
{
    let n: u32 = c as u32;
    (0x09 <= n && n <= 0x0d) || n == 0x20 || n == 0x85 || n == 0xa0 || n == 0x1680 || (0x2000 <= n
        && n <= 0x200a) || n == 0x2028 || n == 0x2029 || n == 0x202f || n == 0x205f || n == 0x3000
}

/// The text without its leading white space.
pub open spec fn trimmed_start(s: Seq<char>) -> Seq<char>
    decreases s.len(),
{
    if s.len() > 0 && is_white_space(s[0]) {
        trimmed_start(s.drop_first())
    } else {
        s
    }
}

/// The text without its trailing white space.
pub open spec fn trimmed_end(s: Seq<char>) -> Seq<char>
    decreases s.len(),
{
    if s.len() > 0 && is_white_space(s.last()) {
        trimmed_end(s.drop_last())
    } else {
        s
    }
}

/// The text without white space at either end.
pub open spec fn trimmed(s: Seq<char>) -> Seq<char> {
    trimmed_end(trimmed_start(s))
}

/// Drops leading white space.
pub fn trim_start<'a>(s: &'a str) -> (r: &'a str)
    ensures
        r@ == trimmed_start(s@),
{
    let cs = chars_of(s);
    let n: usize = cs.len();
    let mut i: usize = 0;
    proof {
        assert(s@.skip(0) == s@);
    }
    while i < n && white_space(cs[i])
        invariant
            i <= n,
            n == cs@.len(),
            cs@ == s@,
            trimmed_start(s@) == trimmed_start(s@.skip(i as int)),
        decreases n - i,
    {
        proof {
            assert(s@.skip(i as int).drop_first() == s@.skip(i + 1));
        }
        i = i + 1;
    }
    proof {
        assert(s@.subrange(i as int, n as int) == s@.skip(i as int));
    }
    s.substring_char(i, n)
}

/// Drops white space at both ends.
pub fn trim<'a>(s: &'a str) -> (r: &'a str)
    ensures
        r@ == trimmed(s@),
{
    let t = trim_start(s);
    let cs = chars_of(t);
    let mut n: usize = cs.len();
    proof {
        assert(t@.take(n as int) == t@);
    }
    while n > 0 && white_space(cs[n - 1])
        invariant
            n <= cs@.len(),
            cs@ == t@,
            trimmed_end(t@) == trimmed_end(t@.take(n as int)),
        decreases n,
    {
        proof {
            assert(t@.take(n as int).drop_last() == t@.take(n - 1));
        }
        n = n - 1;
    }
    proof {
        assert(t@.subrange(0, n as int) == t@.take(n as int));
    }
    t.substring_char(0, n)
}

/// The text without the slashes at its end.
pub open spec fn without_end_slashes(s: Seq<char>) -> Seq<char>
    decreases s.len(),
{
    if s.len() > 0 && s.last() == '/' {
        without_end_slashes(s.drop_last())
    } else {
        s
    }
}

/// Drops every slash at the end.
pub fn trim_end_slashes<'a>(s: &'a str) -> (r: &'a str)
    ensures
        r@ == without_end_slashes(s@),
{
    let cs = chars_of(s);
    let mut n: usize = cs.len();
    proof {
        assert(s@.take(n as int) == s@);
    }
    while n > 0 && cs[n - 1] == '/'
        invariant
            n <= cs@.len(),
            cs@ == s@,
            without_end_slashes(s@) == without_end_slashes(s@.take(n as int)),
        decreases n,
    {
        proof {
            assert(s@.take(n as int).drop_last() == s@.take(n - 1));
        }
        n = n - 1;
    }
    proof {
        assert(s@.subrange(0, n as int) == s@.take(n as int));
    }
    s.substring_char(0, n)
}

// ---------------------------------------------------------------------------
// Splitting
// ---------------------------------------------------------------------------

/// What follows the last dot; the whole text where there is none.
pub open spec fn after_last_dot(s: Seq<char>) -> Seq<char>
    decreases s.len(),
{
    if s.len() == 0 || s.last() == '.' {
        Seq::empty()
    } else {
        after_last_dot(s.drop_last()).push(s.last())
    }
}

/// The extension of a file name: what follows the last dot, or the whole name.
pub fn extension_of<'a>(s: &'a str) -> (r: &'a str)
    ensures
        r@ == after_last_dot(s@),
{
    let cs = chars_of(s);
    let n: usize = cs.len();
    let mut i: usize = n;
    proof {
        assert(s@.take(n as int) == s@);
        assert(s@.subrange(n as int, n as int) == Seq::<char>::empty());
        assert(after_last_dot(s@.take(n as int)) + s@.subrange(n as int, n as int) == after_last_dot(
            s@,
        ));
    }
    while i > 0 && cs[i - 1] != '.'
        invariant
            i <= n,
            n == cs@.len(),
            cs@ == s@,
            after_last_dot(s@) == after_last_dot(s@.take(i as int)) + s@.subrange(
                i as int,
                n as int,
            ),
        decreases i,
    {
        proof {
            assert(s@.take(i as int).drop_last() == s@.take(i - 1));
            assert(after_last_dot(s@.take(i as int)) == after_last_dot(s@.take(i - 1)).push(
                s@[i - 1],
            ));
            assert(after_last_dot(s@.take(i - 1)).push(s@[i - 1]) + s@.subrange(i as int, n as int)
                == after_last_dot(s@.take(i - 1)) + s@.subrange(i - 1, n as int));
        }
        i = i - 1;
    }
    proof {
        assert(after_last_dot(s@.take(i as int)) == Seq::<char>::empty());
        assert(Seq::<char>::empty() + s@.subrange(i as int, n as int) == s@.subrange(
            i as int,
            n as int,
        ));
    }
    s.substring_char(i, n)
}

/// The position of the first line feed at or after `from`; the length where
/// there is none.
pub open spec fn next_line_feed(s: Seq<char>, from: int) -> int
    decreases s.len() - from,
{
    if from >= s.len() || from < 0 {
        s.len() as int
    } else if s[from] == '\n' {
        from
    } else {
        next_line_feed(s, from + 1)
    }
}

/// A line without the carriage return that precedes its line feed.
pub open spec fn without_return(line: Seq<char>) -> Seq<char> {
    if line.len() > 0 && line.last() == '\r' {
        line.drop_last()
    } else {
        line
    }
}

/// The lines from position `from` on. A line ends at a line feed, or at a
/// carriage return directly followed by one; the line end is no part of the
/// line, and the last line may lack it.
pub open spec fn lines_from(s: Seq<char>, from: int) -> Seq<Seq<char>>
    decreases s.len() - from,
    when from >= 0
    via lines_from_decreases
{
    if from >= s.len() {
        Seq::empty()
    } else {
        let end = next_line_feed(s, from);
        if end >= s.len() {
            seq![s.skip(from)]
        } else {
            seq![without_return(s.subrange(from, end))] + lines_from(s, end + 1)
        }
    }
}

#[via_fn]
proof fn lines_from_decreases(s: Seq<char>, from: int) {
    lemma_next_line_feed(s, from);
}

proof fn lemma_next_line_feed(s: Seq<char>, from: int)
    requires
        0 <= from,
    ensures
        from <= s.len() ==> from <= next_line_feed(s, from) <= s.len(),
        from > s.len() ==> next_line_feed(s, from) == s.len(),
    decreases s.len() - from,
{
    if from < s.len() && s[from] != '\n' {
        lemma_next_line_feed(s, from + 1);
    }
}

/// The lines of a text.
pub open spec fn lines(s: Seq<char>) -> Seq<Seq<char>> {
    lines_from(s, 0)
}

/// Whether a character ends a line, for some reader.
pub open spec fn is_break(c: char) -> bool {
    c == '\n' || c == '\r'
}

/// Whether a text is a single line for every reader.
pub open spec fn no_breaks(text: Seq<char>) -> bool {
    forall|i: int| 0 <= i < text.len() ==> !is_break(#[trigger] text[i])
}

/// The texts of a list of strings.
pub open spec fn texts(v: Seq<String>) -> Seq<Seq<char>> {
    v.map_values(|s: String| s@)
}

/// Splits a text into its lines.
pub fn split_lines(s: &str) -> (r: Vec<String>)
    ensures
        texts(r@) == lines(s@),
{
    let cs = chars_of(s);
    let n: usize = cs.len();
    let mut out: Vec<String> = Vec::new();
    let mut from: usize = 0;
    proof {
        assert(texts(out@) == Seq::<Seq<char>>::empty());
        assert(Seq::<Seq<char>>::empty() + lines(s@) == lines(s@));
    }
    while from < n
        invariant
            from <= n,
            n == cs@.len(),
            cs@ == s@,
            texts(out@) + lines_from(s@, from as int) == lines(s@),
        decreases n - from,
    {
        let mut end: usize = from;
        while end < n && cs[end] != '\n'
            invariant
                from <= end <= n,
                n == cs@.len(),
                cs@ == s@,
                next_line_feed(s@, from as int) == next_line_feed(s@, end as int),
            decreases n - end,
        {
            end = end + 1;
        }
        let ghost before = out@;
        let ghost line: Seq<char>;
        if end == n {
            let piece = s.substring_char(from, n);
            proof {
                line = piece@;
                assert(piece@ == s@.skip(from as int));
            }
            out.push(piece.to_owned());
            from = n;
        } else {
            let stop: usize = if end > from && cs[end - 1] == '\r' {
                end - 1
            } else {
                end
            };
            let piece = s.substring_char(from, stop);
            proof {
                line = piece@;
                let whole = s@.subrange(from as int, end as int);
                if stop < end {
                    assert(whole.last() == '\r');
                    assert(piece@ == whole.drop_last());
                } else {
                    if whole.len() > 0 {
                        assert(whole.last() == s@[end - 1]);
                    }
                    assert(piece@ == whole);
                }
                assert(piece@ == without_return(whole));
            }
            out.push(piece.to_owned());
            from = end + 1;
        }
        proof {
            assert(texts(out@) == texts(before).push(line));
            assert(texts(before).push(line) + lines_from(s@, from as int) == texts(before) + (seq![
                line,
            ] + lines_from(s@, from as int)));
            if end == n {
                assert(seq![line] + lines_from(s@, from as int) == seq![line]);
            }
        }
    }
    proof {
        assert(texts(out@) + lines_from(s@, from as int) == texts(out@));
    }
    out
}

// ---------------------------------------------------------------------------
// Decimal numbers
// ---------------------------------------------------------------------------

/// The digit character of a number below ten.
pub open spec fn digit_char(d: nat) -> char {
    (48 + d) as u8 as char
}

/// A natural number in decimal, without leading zeros.
pub open spec fn decimal(n: nat) -> Seq<char>
    decreases n,
{
    if n < 10 {
        seq![digit_char(n)]
    } else {
        decimal(n / 10).push(digit_char(n % 10))
    }
}

/// An integer in decimal, with a minus sign where it is negative.
pub open spec fn signed_decimal(n: int) -> Seq<char> {
    if n < 0 {
        seq!['-'] + decimal((-n) as nat)
    } else {
        decimal(n as nat)
    }
}

/// Appends a number in decimal.
pub fn push_decimal(out: &mut String, n: u64)
    ensures
        final(out)@ == old(out)@ + decimal(n as nat),
    decreases n,
{
    if n >= 10 {
        push_decimal(out, n / 10);
    }
    let d: u8 = (n % 10) as u8;
    out.push((48 + d) as char);
    proof {
        if n >= 10 {
            assert((old(out)@ + decimal((n / 10) as nat)).push(digit_char((n % 10) as nat)) == old(
                out,
            )@ + decimal(n as nat));
        } else {
            assert(old(out)@.push(digit_char(n as nat)) == old(out)@ + decimal(n as nat));
        }
    }
}

/// A number in decimal.
pub fn show_u64(n: u64) -> (r: String)
    ensures
        r@ == decimal(n as nat),
{
    let mut out = String::new();
    push_decimal(&mut out, n);
    proof {
        assert(Seq::<char>::empty() + decimal(n as nat) == decimal(n as nat));
    }
    out
}

/// A signed number in decimal.
pub fn show_i64(n: i64) -> (r: String)
    ensures
        r@ == signed_decimal(n as int),
{
    let mut out = String::new();
    if n < 0 {
        out.push('-');
        let m: u64 = if n == i64::MIN {
            0x8000_0000_0000_0000u64
        } else {
            (-n) as u64
        };
        push_decimal(&mut out, m);
        proof {
            assert(Seq::<char>::empty().push('-') == seq!['-']);
        }
    } else {
        push_decimal(&mut out, n as u64);
        proof {
            assert(Seq::<char>::empty() + decimal(n as nat) == decimal(n as nat));
        }
    }
    out
}

/// Whether a character is an ASCII digit.
pub open spec fn is_digit(c: char) -> bool {
    '0' <= c <= '9'
}

/// Whether a text is made of ASCII digits, one at least.
pub open spec fn all_digits(s: Seq<char>) -> bool {
    s.len() > 0 && forall|i: int| 0 <= i < s.len() ==> is_digit(#[trigger] s[i])
}

/// The number that a row of digits writes.
pub open spec fn digits_value(s: Seq<char>) -> int
    decreases s.len(),
{
    if s.len() == 0 {
        0
    } else {
        digits_value(s.drop_last()) * 10 + (s.last() as int - 48)
    }
}

/// The digits of a number that may carry a sign.
pub open spec fn unsigned_part(s: Seq<char>, minus: bool) -> Seq<char> {
    if s.len() > 0 && (s[0] == '+' || (minus && s[0] == '-')) {
        s.drop_first()
    } else {
        s
    }
}

/// The number that a text writes in decimal: digits, with a plus sign before
/// them or, where `minus` allows it, a minus sign. Nothing else is a number.
pub open spec fn number_of(s: Seq<char>, minus: bool) -> Option<int> {
    let digits = unsigned_part(s, minus);
    if !all_digits(digits) {
        None
    } else if minus && s[0] == '-' {
        Some(-digits_value(digits))
    } else {
        Some(digits_value(digits))
    }
}

/// The number in a given range that a text writes.
pub open spec fn number_within(s: Seq<char>, minus: bool, low: int, high: int) -> Option<int> {
    match number_of(s, minus) {
        Some(n) => if low <= n <= high {
            Some(n)
        } else {
            None
        },
        None => None,
    }
}

proof fn lemma_digits_value_grows(s: Seq<char>, k: int)
    requires
        forall|i: int| 0 <= i < s.len() ==> is_digit(#[trigger] s[i]),
        0 <= k <= s.len(),
    ensures
        0 <= digits_value(s.take(k)) <= digits_value(s),
    decreases s.len(),
{
    if k == s.len() {
        assert(s.take(k) == s);
        if k > 0 {
            let t = s.drop_last();
            assert forall|i: int| 0 <= i < t.len() implies is_digit(#[trigger] t[i]) by {
                assert(t[i] == s[i]);
            }
            lemma_digits_value_grows(t, k - 1);
            assert(t.take(k - 1) == t);
            assert(is_digit(s[k - 1]));
        }
    } else {
        let t = s.drop_last();
        assert forall|i: int| 0 <= i < t.len() implies is_digit(#[trigger] t[i]) by {
            assert(t[i] == s[i]);
        }
        lemma_digits_value_grows(t, k);
        assert(t.take(k) == s.take(k));
        assert(is_digit(s.last()));
    }
}

/// Reads digits from position `from` on, up to a limit.
fn read_digits(cs: &Vec<char>, from: usize, limit: u64) -> (r: Option<u64>)
    requires
        from <= cs@.len(),
        limit <= 0x8000_0000_0000_0000u64,
    ensures
        r is Some <==> (all_digits(cs@.skip(from as int)) && digits_value(cs@.skip(from as int))
            <= limit),
        r matches Some(n) ==> n == digits_value(cs@.skip(from as int)),
{
    let n: usize = cs.len();
    let ghost digits = cs@.skip(from as int);
    if from == n {
        return None;
    }
    let mut value: u64 = 0;
    let mut i: usize = from;
    proof {
        assert(digits.take(0) == Seq::<char>::empty());
    }
    while i < n
        invariant
            from <= i <= n,
            n == cs@.len(),
            digits == cs@.skip(from as int),
            limit <= 0x8000_0000_0000_0000u64,
            value <= limit,
            value == digits_value(digits.take(i - from)),
            forall|j: int| 0 <= j < i - from ==> is_digit(#[trigger] digits[j]),
        decreases n - i,
    {
        let c = cs[i];
        proof {
            assert(digits[i - from] == c);
        }
        if c < '0' || c > '9' {
            proof {
                assert(!is_digit(digits[i - from]));
            }
            return None;
        }
        let d: u64 = c as u64 - 48;
        proof {
            assert(digits.take(i - from + 1).drop_last() == digits.take(i - from));
            assert(digits.take(i - from + 1).last() == c);
        }
        if value > limit / 10 || value * 10 + d > limit {
            proof {
                assert(digits_value(digits.take(i - from + 1)) > limit);
                if all_digits(digits) {
                    lemma_digits_value_grows(digits, i - from + 1);
                }
            }
            return None;
        }
        value = value * 10 + d;
        i = i + 1;
    }
    proof {
        assert(digits.take(n - from) == digits);
    }
    Some(value)
}

/// Reads a signed number: the whole text is an optional sign and digits, and
/// the number fits.
pub fn parse_i64(s: &str) -> (r: Option<i64>)
    ensures
        r is Some <==> number_within(s@, true, i64::MIN as int, i64::MAX as int) is Some,
        r matches Some(n) ==> number_within(s@, true, i64::MIN as int, i64::MAX as int) == Some(
            n as int,
        ),
{
    let cs = chars_of(s);
    let n: usize = cs.len();
    if n == 0 {
        return None;
    }
    proof {
        assert(s@.skip(1) == s@.drop_first());
        assert(s@.skip(0) == s@);
        lemma_digits_nonnegative(unsigned_part(s@, true));
    }
    if cs[0] == '-' {
        match read_digits(&cs, 1, 0x8000_0000_0000_0000u64) {
            Some(m) => {
                if m == 0x8000_0000_0000_0000u64 {
                    Some(i64::MIN)
                } else {
                    Some(-(m as i64))
                }
            },
            None => None,
        }
    } else {
        let from: usize = if cs[0] == '+' {
            1
        } else {
            0
        };
        match read_digits(&cs, from, 0x7fff_ffff_ffff_ffffu64) {
            Some(m) => Some(m as i64),
            None => None,
        }
    }
}

proof fn lemma_digits_nonnegative(s: Seq<char>)
    ensures
        all_digits(s) ==> digits_value(s) >= 0,
{
    if all_digits(s) {
        lemma_digits_value_grows(s, 0);
        assert(s.take(0) == Seq::<char>::empty());
    }
}

/// Reads an unsigned number: the whole text is an optional plus sign and
/// digits, and the number fits.
pub fn parse_u32(s: &str) -> (r: Option<u32>)
    ensures
        r is Some <==> number_within(s@, false, 0, u32::MAX as int) is Some,
        r matches Some(n) ==> number_within(s@, false, 0, u32::MAX as int) == Some(n as int),
{
    let cs = chars_of(s);
    let n: usize = cs.len();
    if n == 0 {
        return None;
    }
    proof {
        assert(s@.skip(1) == s@.drop_first());
        assert(s@.skip(0) == s@);
        lemma_digits_nonnegative(unsigned_part(s@, false));
    }
    let from: usize = if cs[0] == '+' {
        1
    } else {
        0
    };
    match read_digits(&cs, from, 0xffff_ffffu64) {
        Some(m) => Some(m as u32),
        None => None,
    }
}

} // verus!
