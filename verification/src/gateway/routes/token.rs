//! Taking the key out of what a player is given.
//!
//! Torbox puts the key into the query of its URLs, as `token=...`.
use vstd::prelude::*;
use vstd::string::*;

use crate::bindings::{
    fragment_text, is_web, pair_texts, parsed_url, reads_as_itself, requeried_url, same_place,
    unqueried_url, url_clear_query, url_parse, url_set_pairs, UrlView,
};
use crate::text::{begins, chars_of, is_break, no_breaks, same_text, stands_at};

verus! {

/// The pairs of a query, without those that carry a token.
pub open spec fn tokenless(pairs: Seq<(Seq<char>, Seq<char>)>) -> Seq<(Seq<char>, Seq<char>)>
    decreases pairs.len(),
{
    if pairs.len() == 0 {
        Seq::empty()
    } else if pairs.last().0 == "token"@ {
        tokenless(pairs.drop_last())
    } else {
        tokenless(pairs.drop_last()).push(pairs.last())
    }
}

/// Drops the pairs that carry a token.
pub fn without_token(pairs: &Vec<(String, String)>) -> (r: Vec<(String, String)>)
    ensures
        pair_texts(r@) == tokenless(pair_texts(pairs@)),
{
    let n: usize = pairs.len();
    let mut out: Vec<(String, String)> = Vec::new();
    let mut i: usize = 0;
    proof {
        assert(pair_texts(pairs@).take(0) == Seq::<(Seq<char>, Seq<char>)>::empty());
        assert(pair_texts(out@) == Seq::<(Seq<char>, Seq<char>)>::empty());
    }
    while i < n
        invariant
            i <= n,
            n == pairs@.len(),
            pair_texts(out@) == tokenless(pair_texts(pairs@).take(i as int)),
        decreases n - i,
    {
        proof {
            let part = pair_texts(pairs@).take(i + 1);
            assert(part.drop_last() == pair_texts(pairs@).take(i as int));
            assert(part.last() == (pairs@[i as int].0@, pairs@[i as int].1@));
        }
        if !same_text(&pairs[i].0, "token") {
            let ghost before = out@;
            out.push((pairs[i].0.clone(), pairs[i].1.clone()));
            proof {
                assert(pair_texts(out@) == pair_texts(before).push(
                    (pairs@[i as int].0@, pairs@[i as int].1@),
                ));
            }
        }
        i = i + 1;
    }
    proof {
        assert(pair_texts(pairs@).take(n as int) == pair_texts(pairs@));
    }
    out
}

/// A URL without the pairs of its query that carry a token. A text that is no
/// URL is left as it is.
pub open spec fn stripped(url: Seq<char>) -> Seq<char> {
    match parsed_url(url) {
        Ok(parts) => {
            let kept = tokenless(parts.query_pairs);
            if kept.len() == 0 {
                unqueried_url(url).unwrap()
            } else {
                requeried_url(url, kept).unwrap() + fragment_text(parts.fragment)
            }
        },
        Err(_) => url,
    }
}

/// Whether no pair carries a token.
pub open spec fn no_token(pairs: Seq<(Seq<char>, Seq<char>)>) -> bool {
    forall|i: int| 0 <= i < pairs.len() ==> (#[trigger] pairs[i]).0 != "token"@
}

/// Whether a text, read as a URL, carries no token.
pub open spec fn token_free(url: Seq<char>) -> bool {
    parsed_url(url) matches Ok(parts) ==> no_token(parts.query_pairs)
}

/// Dropping the tokens leaves none, and leaves alone what has none.
pub proof fn tokenless_has_no_token(pairs: Seq<(Seq<char>, Seq<char>)>)
    ensures
        no_token(tokenless(pairs)),
        tokenless(pairs).len() <= pairs.len(),
        no_token(pairs) ==> tokenless(pairs) == pairs,
    decreases pairs.len(),
{
    if pairs.len() > 0 {
        tokenless_has_no_token(pairs.drop_last());
        if no_token(pairs) {
            assert(pairs[pairs.len() - 1].0 != "token"@);
            assert forall|i: int| 0 <= i < pairs.drop_last().len() implies (
            #[trigger] pairs.drop_last()[i]).0 != "token"@ by {
                assert(pairs[i].0 != "token"@);
            }
            assert(pairs.drop_last().push(pairs.last()) == pairs);
        }
    } else {
        assert(tokenless(pairs) == pairs);
    }
}

/// Whether taking the token out of a URL of the web left the rest alone: the
/// place that it names, and the query where no pair of it is left but a token.
pub open spec fn keeps_the_rest(before: UrlView, after: UrlView) -> bool {
    &&& same_place(after, before)
    &&& tokenless(before.query_pairs).len() == 0 ==> after.query is None
}

/// Removes the token from the query of a URL. Reading the result back gives
/// the other pairs, in order. A URL of the web that has no query is left as it
/// reads. One whose own text is read as that URL keeps its scheme, host, port,
/// path and fragment, and removing the token again changes nothing; so it is
/// with a result that is no URL.
pub fn strip_token(url: &str) -> (r: String)
    ensures
        r@ == stripped(url@),
        token_free(r@),
        no_breaks(url@) ==> no_breaks(r@),
        parsed_url(url@) is Ok ==> no_breaks(r@),
        parsed_url(url@) matches Ok(before) ==> (parsed_url(r@) matches Ok(after)
            ==> after.query_pairs == tokenless(before.query_pairs)),
        parsed_url(url@) matches Ok(before) ==> is_web(before) && before.query is None ==> r@
            == before.text,
        parsed_url(url@) matches Ok(before) ==> reads_as_itself(before) ==> {
            &&& r@.len() <= u32::MAX ==> parsed_url(r@) is Ok
            &&& parsed_url(r@) matches Ok(after) ==> keeps_the_rest(before, after) && after.text
                == r@
            &&& stripped(r@) == r@
        },
        parsed_url(r@) is Err ==> stripped(r@) == r@,
        parsed_url(url@) is Err ==> r@ == url@,
        parsed_url(url@) matches Ok(before) ==> reads_as_itself(before) ==> (parsed_url(r@) matches Ok(
            after,
        ) ==> after.scheme == before.scheme && after.host == before.host && after.port == before.port
            && after.path_segments == before.path_segments && after.fragment == before.fragment
            && forall|i: int| 0 <= i < after.query_pairs.len() ==> (#[trigger] after.query_pairs[i]).0
            != "token"@),
{
    match url_parse(url) {
        Ok(parts) => {
            let kept = without_token(&parts.query_pairs);
            proof {
                tokenless_has_no_token(parts@.query_pairs);
                tokenless_has_no_token(pair_texts(kept@));
                assert(kept@.len() == pair_texts(kept@).len());
            }
            if kept.len() == 0 {
                match url_clear_query(url) {
                    Some(text) => {
                        proof {
                            if let Ok(after) = parsed_url(text@) {
                                assert(after.query_pairs == tokenless(parts@.query_pairs));
                                tokenless_has_no_token(after.query_pairs);
                            }
                        }
                        text
                    },
                    None => url.to_owned(),
                }
            } else {
                match url_set_pairs(url, &kept) {
                    Some(bare) => {
                        let mut text = bare;
                        let ghost head = text@;
                        match &parts.fragment {
                            Some(fragment) => {
                                text.append("#");
                                text.append(fragment);
                            },
                            None => {},
                        }
                        proof {
                            let tail = fragment_text(parts@.fragment);
                            assert(text@ == head + tail);
                            reveal_strlit("#");
                            assert(tail.len() == 0 || tail[0] == '#');
                            assert(no_breaks(tail));
                            assert forall|i: int| 0 <= i < text@.len() implies !is_break(
                                #[trigger] text@[i],
                            ) by {
                                if i < head.len() {
                                    assert(text@[i] == head[i]);
                                } else {
                                    assert(text@[i] == tail[i - head.len()]);
                                }
                            }
                            assert(parsed_url(head + tail) matches Ok(after) ==> after.query_pairs
                                == pair_texts(kept@));
                        }
                        text
                    },
                    None => url.to_owned(),
                }
            }
        },
        Err(_) => url.to_owned(),
    }
}

// ---------------------------------------------------------------------------
// Texts that are no URLs
// ---------------------------------------------------------------------------

/// Whether a token stands at a position of a text, as it does in a query.
pub open spec fn token_at(text: Seq<char>, i: int) -> bool {
    begins(text.skip(i), "?token="@) || begins(text.skip(i), "&token="@)
}

/// Whether a token stands in a text, as it does in a query.
pub open spec fn mentions_token(text: Seq<char>) -> bool {
    exists|i: int| 0 <= i < text.len() && #[trigger] token_at(text, i)
}

/// Tells whether a token stands in a text.
pub fn has_mention(text: &str) -> (r: bool)
    ensures
        r == mentions_token(text@),
{
    let cs = chars_of(text);
    let asked = chars_of("?token=");
    let added = chars_of("&token=");
    let n: usize = cs.len();
    let mut i: usize = 0;
    while i < n
        invariant
            i <= n,
            n == cs@.len(),
            cs@ == text@,
            asked@ == "?token="@,
            added@ == "&token="@,
            forall|j: int| 0 <= j < i ==> !#[trigger] token_at(text@, j),
        decreases n - i,
    {
        if stands_at(&cs, i, &asked) || stands_at(&cs, i, &added) {
            proof {
                assert(token_at(text@, i as int));
            }
            return true;
        }
        i = i + 1;
    }
    false
}

/// Whether a text holds neither of the characters before which a token may
/// stand.
pub open spec fn no_marks(text: Seq<char>) -> bool {
    forall|i: int| 0 <= i < text.len() ==> #[trigger] text[i] != '?' && text[i] != '&'
}

/// The text before the first question mark or ampersand.
pub open spec fn before_mark(text: Seq<char>) -> Seq<char>
    decreases text.len(),
{
    if text.len() == 0 || text[0] == '?' || text[0] == '&' {
        Seq::empty()
    } else {
        seq![text[0]] + before_mark(text.skip(1))
    }
}

/// A text without marks is before its first mark, and holds no token.
pub proof fn unmarked_is_before_mark(text: Seq<char>)
    requires
        no_marks(text),
    ensures
        before_mark(text) == text,
        !mentions_token(text),
    decreases text.len(),
{
    if text.len() > 0 {
        assert(text[0] != '?' && text[0] != '&');
        assert forall|i: int| 0 <= i < text.skip(1).len() implies #[trigger] text.skip(1)[i] != '?'
            && text.skip(1)[i] != '&' by {
            assert(text[i + 1] != '?' && text[i + 1] != '&');
        }
        unmarked_is_before_mark(text.skip(1));
        assert(seq![text[0]] + text.skip(1) == text);
    }
    reveal_strlit("?token=");
    reveal_strlit("&token=");
    assert forall|i: int| 0 <= i < text.len() implies !#[trigger] token_at(text, i) by {
        let rest = text.skip(i);
        assert(rest[0] == text[i]);
        if begins(rest, "?token="@) {
            assert(rest.take(7)[0] == rest[0]);
        }
        if begins(rest, "&token="@) {
            assert(rest.take(7)[0] == rest[0]);
        }
    }
}

proof fn lemma_before_mark(text: Seq<char>, n: int)
    requires
        0 <= n <= text.len(),
        no_marks(text.take(n)),
        n == text.len() || text[n] == '?' || text[n] == '&',
    ensures
        before_mark(text) == text.take(n),
    decreases n,
{
    if n > 0 {
        assert(text.take(n)[0] == text[0]);
        let rest = text.skip(1);
        assert(rest.take(n - 1) == text.take(n).skip(1));
        assert forall|i: int| 0 <= i < rest.take(n - 1).len() implies #[trigger] rest.take(n - 1)[i]
            != '?' && rest.take(n - 1)[i] != '&' by {
            assert(text.take(n)[i + 1] == rest.take(n - 1)[i]);
        }
        lemma_before_mark(rest, n - 1);
        assert(seq![text[0]] + rest.take(n - 1) == text.take(n));
    } else {
        assert(text.take(0) == Seq::<char>::empty());
    }
}

/// Tells whether a text holds a question mark or an ampersand.
pub fn has_marks(text: &str) -> (r: bool)
    ensures
        r == !no_marks(text@),
{
    let cs = chars_of(text);
    let n: usize = cs.len();
    let mut i: usize = 0;
    while i < n
        invariant
            i <= n,
            n == cs@.len(),
            cs@ == text@,
            forall|j: int| 0 <= j < i ==> #[trigger] text@[j] != '?' && text@[j] != '&',
        decreases n - i,
    {
        if cs[i] == '?' || cs[i] == '&' {
            proof {
                assert(text@[i as int] == '?' || text@[i as int] == '&');
            }
            return true;
        }
        i = i + 1;
    }
    false
}

/// The text before the first mark is the beginning of the text, and holds no
/// mark.
pub proof fn before_mark_is_unmarked(text: Seq<char>)
    ensures
        before_mark(text).len() <= text.len(),
        before_mark(text) == text.take(before_mark(text).len() as int),
        no_marks(before_mark(text)),
    decreases text.len(),
{
    if text.len() > 0 && text[0] != '?' && text[0] != '&' {
        let rest = before_mark(text.skip(1));
        before_mark_is_unmarked(text.skip(1));
        assert(seq![text[0]] + text.skip(1).take(rest.len() as int) == text.take(
            rest.len() as int + 1,
        ));
        assert forall|i: int| 0 <= i < before_mark(text).len() implies #[trigger] before_mark(
            text,
        )[i] != '?' && before_mark(text)[i] != '&' by {
            if i > 0 {
                assert(before_mark(text)[i] == rest[i - 1]);
            }
        }
    }
}

/// Cuts a text at its first question mark or ampersand.
pub fn cut_at_mark<'a>(text: &'a str) -> (r: &'a str)
    ensures
        r@ == before_mark(text@),
        no_marks(r@),
{
    let cs = chars_of(text);
    let n: usize = cs.len();
    let mut i: usize = 0;
    while i < n && cs[i] != '?' && cs[i] != '&'
        invariant
            i <= n,
            n == cs@.len(),
            cs@ == text@,
            no_marks(text@.take(i as int)),
        decreases n - i,
    {
        proof {
            let before = text@.take(i as int);
            let after = text@.take(i + 1);
            assert forall|j: int| 0 <= j < after.len() implies #[trigger] after[j] != '?'
                && after[j] != '&' by {
                if j < i {
                    assert(before[j] == after[j]);
                }
            }
        }
        i = i + 1;
    }
    proof {
        lemma_before_mark(text@, i as int);
        assert(text@.subrange(0, i as int) == text@.take(i as int));
    }
    text.substring_char(0, i)
}

/// A text without the token that stands in it: it ends before the token.
pub open spec fn told(text: Seq<char>) -> Seq<char> {
    if mentions_token(text) {
        before_mark(text)
    } else {
        text
    }
}

/// Whether a character stands in the middle of a token's mention.
pub open spec fn is_mention_char(c: char) -> bool {
    c == '?' || c == '&' || c == 't' || c == 'o' || c == 'k' || c == 'e' || c == 'n' || c == '='
}

proof fn lemma_mention_chars(text: Seq<char>, i: int, k: int)
    requires
        0 <= i < text.len(),
        token_at(text, i),
        0 <= k < 7,
    ensures
        i + 7 <= text.len(),
        is_mention_char(text[i + k]),
{
    reveal_strlit("?token=");
    reveal_strlit("&token=");
    let rest = text.skip(i);
    assert(rest.take(7)[k] == text[i + k]);
}

proof fn lemma_token_at_part(text: Seq<char>, part: Seq<char>, from: int, i: int)
    requires
        0 <= from <= i,
        i + 7 <= from + part.len(),
        from + part.len() <= text.len(),
        part == text.subrange(from, from + part.len()),
        token_at(text, i),
    ensures
        mentions_token(part),
{
    reveal_strlit("?token=");
    reveal_strlit("&token=");
    assert(part.skip(i - from).take(7) == text.skip(i).take(7));
    assert(token_at(part, i - from));
}

/// Two texts without a token make one without a token, where a character that
/// is no part of a mention stands at the seam.
pub proof fn joined_texts_mention_none(a: Seq<char>, b: Seq<char>)
    requires
        !mentions_token(a),
        !mentions_token(b),
        a.len() == 0 || b.len() == 0 || !is_mention_char(a.last()) || !is_mention_char(b[0]),
    ensures
        !mentions_token(a + b),
{
    let s = a + b;
    assert forall|i: int| 0 <= i < s.len() implies !#[trigger] token_at(s, i) by {
        if token_at(s, i) {
            lemma_mention_chars(s, i, 0);
            let n = a.len() as int;
            if i + 7 <= n {
                assert(a == s.subrange(0, n));
                lemma_token_at_part(s, a, 0, i);
            } else if i >= n {
                assert(b == s.subrange(n, n + b.len()));
                lemma_token_at_part(s, b, n, i);
            } else {
                lemma_mention_chars(s, i, n - 1 - i);
                lemma_mention_chars(s, i, n - i);
                assert(s[n - 1] == a.last());
                assert(s[n] == b[0]);
            }
        }
    }
}

/// The parts of a text without a token have none either.
pub proof fn parts_mention_none(a: Seq<char>, b: Seq<char>)
    requires
        !mentions_token(a + b),
    ensures
        !mentions_token(a),
        !mentions_token(b),
{
    let s = a + b;
    let n = a.len() as int;
    assert forall|i: int| 0 <= i < a.len() implies !#[trigger] token_at(a, i) by {
        if token_at(a, i) {
            lemma_mention_chars(a, i, 0);
            assert(s.skip(i).take(7) == a.skip(i).take(7));
            reveal_strlit("?token=");
            reveal_strlit("&token=");
            assert(token_at(s, i));
        }
    }
    assert forall|i: int| 0 <= i < b.len() implies !#[trigger] token_at(b, i) by {
        if token_at(b, i) {
            assert(s.skip(n + i) == b.skip(i));
            assert(token_at(s, n + i));
        }
    }
}

/// A message mentions no token once it is told.
pub proof fn told_mentions_none(text: Seq<char>)
    ensures
        !mentions_token(told(text)),
{
    before_mark_is_unmarked(text);
    unmarked_is_before_mark(before_mark(text));
}

/// Keeps the token out of a message.
pub fn hide_mention(text: &str) -> (r: String)
    ensures
        r@ == told(text@),
        !mentions_token(r@),
{
    if has_mention(text) {
        let head = cut_at_mark(text);
        proof {
            unmarked_is_before_mark(head@);
        }
        head.to_owned()
    } else {
        text.to_owned()
    }
}

/// Tells whether a text, read as a URL, carries no token. A text without a
/// question mark carries none.
pub fn is_token_free(text: &str) -> (r: bool)
    ensures
        r == token_free(text@),
        no_marks(text@) ==> r,
{
    match url_parse(text) {
        Ok(parts) => {
            let n: usize = parts.query_pairs.len();
            let mut i: usize = 0;
            while i < n
                invariant
                    i <= n,
                    n == parts.query_pairs@.len(),
                    parsed_url(text@) == Ok::<UrlView, Seq<char>>(parts@),
                    no_marks(text@) ==> n == 0,
                    forall|j: int| 0 <= j < i ==> (#[trigger] parts@.query_pairs[j]).0 != "token"@,
                decreases n - i,
            {
                proof {
                    assert(parts@.query_pairs[i as int].0 == parts.query_pairs@[i as int].0@);
                }
                if same_text(&parts.query_pairs[i].0, "token") {
                    return false;
                }
                i = i + 1;
            }
            true
        },
        Err(_) => true,
    }
}

} // verus!
