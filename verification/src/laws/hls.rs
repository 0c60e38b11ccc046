//! Playlists, segments, tokens, and the warm-up of a stream.
use vstd::prelude::*;

use crate::bindings::{
    fragment_text, is_header_value, joined_url, parsed_url, requeried_url, unqueried_url, UrlView,
};
use crate::gateway::routes::helpers::{encoded_values_decode, url_encoded};
use crate::gateway::routes::hls::{
    entry_of, filed, fresh, playlist_outcome, segment_outcome, touched, track_number, wanted_track,
    warmup_action, ConvertEntry, Converts, PlaylistFetch, WarmupAction, WarmupActionView,
};
use crate::gateway::routes::playlist::{
    around_uri, carries_no_token, each_rewritten, file_of, joined_lines, line_kind, next_quote,
    resolved, rewritten, rewritten_line, routed_tag, routed_value, segment_line, segment_prefix,
    segment_url, uri_start, uri_values, value_carries_token, LineKind,
};
use crate::gateway::routes::token::{
    before_mark, before_mark_is_unmarked, mentions_token, no_marks, no_token, stripped, token_at, token_free,
    tokenless, told,
};
use crate::json::JsonView;
use crate::laws::text::{beginnings_and_ends, is_row_of_digits, numbers_are_digits};
use crate::response::{BodyView, ResponseView};
use crate::text::{begins, decimal, digits_value, lines, trimmed_start, without_end_slashes};

verus! {

// ---------------------------------------------------------------------------
// Warm-up
// ---------------------------------------------------------------------------

/// The body of a reply is read exactly where its status is from 200 to 299,
/// however often the playlist was asked for. It is asked for again exactly on
/// 503 and 504, and after twelve times no more. Every other reply is a failure.
pub proof fn statuses_decide(attempts: u64, status: u16, text: Seq<char>)
    ensures
        warmup_action(attempts, status, text) is ReadBody <==> 200 <= status <= 299,
        warmup_action(attempts, status, text) is Retry <==> (status == 503 || status == 504)
            && attempts < 12,
        warmup_action(attempts, status, text) is Fail <==> (status < 200 || status > 299) && !((
        status == 503 || status == 504) && attempts < 12),
{
}

/// A failure tells the status and how often the playlist was asked for again.
pub proof fn failures_tell_the_status(attempts: u64, status: u16, text: Seq<char>, reason: Seq<char>)
    requires
        warmup_action(attempts, status, text) == WarmupActionView::Fail(reason),
    ensures
        reason == "playlist fetch returned non-success status "@ + text + " after "@ + decimal(
            attempts as nat,
        ) + " retries"@,
{
}

// ---------------------------------------------------------------------------
// What a convertId stands for
// ---------------------------------------------------------------------------

/// An entry is fresh for an hour after its last use.
pub proof fn entries_are_fresh_for_an_hour(entry: ConvertEntry, now: u64)
    ensures
        fresh(entry, now) <==> now < entry.last_used + 3_600_000,
{
}

/// Filing an entry keeps every other entry that was used within the hour, and
/// no other.
pub proof fn filing_keeps_what_is_used(
    map: Converts,
    id: Seq<char>,
    entry: ConvertEntry,
    asked: Seq<char>,
)
    ensures
        filed(map, id, entry).contains_key(id) && filed(map, id, entry)[id] == entry,
        asked != id ==> (filed(map, id, entry).contains_key(asked) <==> map.contains_key(asked)
            && entry.last_used < map[asked].last_used + 3_600_000),
        asked != id && filed(map, id, entry).contains_key(asked) ==> filed(map, id, entry)[asked]
            == map[asked],
        map.contains_key(id) ==> entry_of(map, id) == Some(map[id]),
        !map.contains_key(id) ==> entry_of(map, id) is None,
{
}

/// Using an entry sets the time of its last use, and changes nothing else.
pub proof fn using_sets_the_time(map: Converts, id: Seq<char>, now: u64, asked: Seq<char>)
    ensures
        touched(map, id, now).contains_key(asked) <==> map.contains_key(asked),
        map.contains_key(id) ==> touched(map, id, now)[id].last_used == now && touched(
            map,
            id,
            now,
        )[id].info_hash == map[id].info_hash && touched(map, id, now)[id].stream == map[id].stream,
        map.contains_key(asked) && asked != id ==> touched(map, id, now)[asked] == map[asked],
{
}

// ---------------------------------------------------------------------------
// Requests
// ---------------------------------------------------------------------------

/// A track is named by its number; without one, by a text that is a number of
/// thirty-two bits, a plus sign before it or none.
pub proof fn tracks_are_numbers(index: u32, text: Option<Seq<char>>, digits: Seq<char>)
    ensures
        wanted_track(Some(index), text) == Some(index as int),
        wanted_track(None, None) is None,
        is_row_of_digits(digits) && 0 <= digits_value(digits) <= 0xffff_ffff ==> wanted_track(
            None,
            Some(digits),
        ) == Some(digits_value(digits)),
        is_row_of_digits(digits) && digits_value(digits) > 0xffff_ffff ==> wanted_track(
            None,
            Some(digits),
        ) is None,
        !is_row_of_digits(digits) && !(digits.len() > 0 && digits[0] == '+' && is_row_of_digits(
            digits.skip(1),
        )) ==> wanted_track(None, Some(digits)) is None,
        track_number(Some(index)) == Some(index as int),
        track_number(None) is None,
{
    numbers_are_digits(digits, false);
}

// ---------------------------------------------------------------------------
// Lines
// ---------------------------------------------------------------------------

/// A line is told by what follows the white space before it: nothing, a hash
/// sign, something that ends in `.m3u8`, or something else.
pub proof fn lines_are_told_apart(line: Seq<char>)
    ensures
        ({
            let t = trimmed_start(line);
            &&& line_kind(line) == LineKind::Blank <==> t.len() == 0
            &&& line_kind(line) == LineKind::Tag <==> t.len() > 0 && t[0] == '#'
            &&& line_kind(line) == LineKind::Playlist <==> t.len() > 0 && t[0] != '#'
                && ".m3u8"@.is_suffix_of(t)
            &&& line_kind(line) == LineKind::Segment <==> t.len() > 0 && t[0] != '#'
                && !".m3u8"@.is_suffix_of(t)
        }),
{
    beginnings_and_ends(trimmed_start(line), ".m3u8"@);
}

/// A line that is an absolute URL of the web names that URL; every other line
/// names what joining it to the URL of the playlist gives.
pub proof fn lines_name_urls(base: Seq<char>, candidate: Seq<char>)
    ensures
        "http://"@.is_prefix_of(candidate) || "https://"@.is_prefix_of(candidate) ==> resolved(
            base,
            candidate,
        ) == Some(candidate),
        !"http://"@.is_prefix_of(candidate) && !"https://"@.is_prefix_of(candidate) ==> (resolved(
            base,
            candidate,
        ) matches Some(u) ==> joined_url(base, candidate) == Ok::<Seq<char>, Seq<char>>(u)),
        !"http://"@.is_prefix_of(candidate) && !"https://"@.is_prefix_of(candidate) ==> (resolved(
            base,
            candidate,
        ) is None <==> joined_url(base, candidate) is Err),
{
    beginnings_and_ends(candidate, "http://"@);
    beginnings_and_ends(candidate, "https://"@);
}

/// Whether a line names a segment, by the URL `u` whose path, read without the
/// token, has the given segments.
pub open spec fn names_segment(
    line: Seq<char>,
    upstream: Seq<char>,
    u: Seq<char>,
    path: Seq<Seq<char>>,
) -> bool {
    let t = trimmed_start(line);
    &&& t.len() > 0
    &&& t[0] != '#'
    &&& !".m3u8"@.is_suffix_of(t)
    &&& if "http://"@.is_prefix_of(t) || "https://"@.is_prefix_of(t) {
        u == t
    } else {
        joined_url(upstream, t) == Ok::<Seq<char>, Seq<char>>(u)
    }
    &&& parsed_url(stripped(u)) matches Ok(url) && url.path_segments == Some(path)
    &&& path.len() > 0
}

/// A line that names a segment, absolute or not, becomes the prefix, a slash and
/// the encoded last segment of the path.
pub proof fn segment_lines_keep_their_name(
    line: Seq<char>,
    upstream: Seq<char>,
    prefix: Seq<char>,
    u: Seq<char>,
    path: Seq<Seq<char>>,
)
    requires
        names_segment(line, upstream, u, path),
    ensures
        rewritten_line(line, upstream, prefix) == prefix + "/"@ + url_encoded(path.last()),
{
    lines_are_told_apart(line);
    lines_name_urls(upstream, trimmed_start(line));
}

/// An absolute line becomes the same, whatever the URL of the playlist.
pub proof fn absolute_lines_need_no_base(
    line: Seq<char>,
    one: Seq<char>,
    other: Seq<char>,
    prefix: Seq<char>,
)
    requires
        "http://"@.is_prefix_of(trimmed_start(line)) || "https://"@.is_prefix_of(
            trimmed_start(line),
        ),
    ensures
        rewritten_line(line, one, prefix) == rewritten_line(line, other, prefix),
{
    lines_name_urls(one, trimmed_start(line));
    lines_name_urls(other, trimmed_start(line));
    let t = trimmed_start(line);
    reveal_strlit("http://");
    reveal_strlit("https://");
    if "http://"@.is_prefix_of(t) {
        assert(t.subrange(0, 7)[0] == t[0]);
    } else {
        assert(t.subrange(0, 8)[0] == t[0]);
    }
}

/// Two lines that name segments become the same line exactly where their paths
/// end in the same segment.
pub proof fn different_names_stay_different(
    a: Seq<char>,
    b: Seq<char>,
    upstream: Seq<char>,
    prefix: Seq<char>,
    u: Seq<char>,
    v: Seq<char>,
    p: Seq<Seq<char>>,
    q: Seq<Seq<char>>,
)
    requires
        names_segment(a, upstream, u, p),
        names_segment(b, upstream, v, q),
    ensures
        rewritten_line(a, upstream, prefix) == rewritten_line(b, upstream, prefix) <==> p.last()
            == q.last(),
{
    segment_lines_keep_their_name(a, upstream, prefix, u, p);
    segment_lines_keep_their_name(b, upstream, prefix, v, q);
    let head = prefix + "/"@;
    let x = url_encoded(p.last());
    let y = url_encoded(q.last());
    if head + x == head + y {
        assert((head + x).skip(head.len() as int) =~= x);
        assert((head + y).skip(head.len() as int) =~= y);
        encoded_values_decode(p.last(), q.last());
    }
}

/// The URL of another playlist is given without the token, and without what
/// follows its first mark where it would carry one still.
pub proof fn playlists_are_named_by_url(
    line: Seq<char>,
    upstream: Seq<char>,
    prefix: Seq<char>,
    u: Seq<char>,
)
    requires
        ({
            let t = trimmed_start(line);
            &&& t.len() > 0
            &&& t[0] != '#'
            &&& ".m3u8"@.is_suffix_of(t)
            &&& if "http://"@.is_prefix_of(t) || "https://"@.is_prefix_of(t) {
                u == t
            } else {
                joined_url(upstream, t) == Ok::<Seq<char>, Seq<char>>(u)
            }
        }),
    ensures
        carries_no_token(stripped(u)) ==> rewritten_line(line, upstream, prefix) == stripped(u),
        !carries_no_token(stripped(u)) ==> rewritten_line(line, upstream, prefix) == before_mark(
            stripped(u),
        ),
{
    lines_are_told_apart(line);
    lines_name_urls(upstream, trimmed_start(line));
}

/// A line that names no URL is copied, or cut at its first mark where it would
/// carry a token.
pub proof fn unresolved_lines_are_copied(line: Seq<char>, upstream: Seq<char>, prefix: Seq<char>)
    requires
        ({
            let t = trimmed_start(line);
            &&& t.len() > 0
            &&& t[0] != '#'
            &&& !"http://"@.is_prefix_of(t)
            &&& !"https://"@.is_prefix_of(t)
            &&& joined_url(upstream, t) is Err
        }),
    ensures
        carries_no_token(line) ==> rewritten_line(line, upstream, prefix) == line,
        !carries_no_token(line) ==> rewritten_line(line, upstream, prefix) == before_mark(line),
{
    lines_are_told_apart(line);
    lines_name_urls(upstream, trimmed_start(line));
}

/// A line carries no token where none stands in it and its URL, or each `URI`
/// value of a tag, has no pair of that name.
pub proof fn clean_lines_have_no_token(line: Seq<char>)
    ensures
        carries_no_token(line) ==> !mentions_token(line),
        trimmed_start(line).len() > 0 && trimmed_start(line)[0] == '#' ==> (carries_no_token(line)
            <==> !mentions_token(line) && forall|i: int|
            0 <= i < uri_values(line).len() ==> token_free(#[trigger] uri_values(line)[i])),
        trimmed_start(line).len() == 0 || trimmed_start(line)[0] != '#' ==> (carries_no_token(line)
            <==> !mentions_token(line) && token_free(line)),
{
    lines_are_told_apart(line);
}

/// The segments of a playlist are asked for under `/hlsv2/` and the id of the
/// conversion, on the public base without the slashes at its end where there is
/// one.
pub proof fn segments_have_a_prefix(id: Seq<char>, base: Seq<char>)
    ensures
        segment_prefix(id, None) == "/hlsv2/"@ + id,
        segment_prefix(id, Some(base)) == without_end_slashes(base) + "/hlsv2/"@ + id,
{
}

/// A playlist is rewritten line by line, and each line ends in a line feed.
pub proof fn playlists_are_rewritten_by_line(
    body: Seq<char>,
    upstream: Seq<char>,
    id: Seq<char>,
    base: Option<Seq<char>>,
    front: Seq<Seq<char>>,
    line: Seq<char>,
    i: int,
)
    ensures
        ({
            let prefix = segment_prefix(id, base);
            let written = each_rewritten(lines(body), upstream, prefix);
            &&& rewritten(body, upstream, id, base) == joined_lines(written)
            &&& written.len() == lines(body).len()
            &&& 0 <= i < lines(body).len() ==> written[i] == rewritten_line(
                lines(body)[i],
                upstream,
                prefix,
            )
        }),
        joined_lines(Seq::empty()) == Seq::<char>::empty(),
        joined_lines(front.push(line)) == joined_lines(front) + line.push('\n'),
{
    reveal_strlit("\n");
    assert(front.push(line).drop_last() =~= front);
    assert(joined_lines(front) + line + "\n"@ =~= joined_lines(front) + line.push('\n'));
}

// ---------------------------------------------------------------------------
// Tags
// ---------------------------------------------------------------------------

proof fn lemma_uri_found(tag: Seq<char>, from: int, k: int)
    requires
        0 <= from <= k < tag.len(),
        begins(tag.skip(k), "URI=\""@),
        forall|i: int| from <= i < k ==> !begins(#[trigger] tag.skip(i), "URI=\""@),
    ensures
        uri_start(tag, from) == Some(k + 5),
    decreases k - from,
{
    if from < k {
        assert(!begins(tag.skip(from), "URI=\""@));
        lemma_uri_found(tag, from + 1, k);
    }
}

proof fn lemma_uri_absent(tag: Seq<char>, from: int)
    requires
        0 <= from <= tag.len(),
        forall|i: int| 0 <= i < tag.len() ==> !"URI=\""@.is_prefix_of(#[trigger] tag.skip(i)),
    ensures
        uri_start(tag, from) is None,
    decreases tag.len() - from,
{
    if from < tag.len() {
        beginnings_and_ends(tag.skip(from), "URI=\""@);
        assert(!"URI=\""@.is_prefix_of(tag.skip(from)));
        lemma_uri_absent(tag, from + 1);
    }
}

proof fn lemma_quote_found(s: Seq<char>, from: int, end: int)
    requires
        0 <= from <= end <= s.len(),
        end < s.len() ==> s[end] == '"',
        forall|i: int| from <= i < end ==> #[trigger] s[i] != '"',
    ensures
        next_quote(s, from) == end,
    decreases end - from,
{
    if from < end {
        assert(s[from] != '"');
        lemma_quote_found(s, from + 1, end);
    }
}

/// The `URI` values of a tag are what stands between `URI="` and the next
/// quotation mark. Each is routed, what stands around it is kept, and what
/// follows is treated in the same way.
pub proof fn every_value_of_a_tag_is_routed(
    head: Seq<char>,
    value: Seq<char>,
    tail: Seq<char>,
    upstream: Seq<char>,
    prefix: Seq<char>,
)
    requires
        ({
            let tag = head + "URI=\""@ + value + tail;
            forall|i: int| 0 <= i < head.len() ==> !"URI=\""@.is_prefix_of(#[trigger] tag.skip(i))
        }),
        !value.contains('"'),
        tail.len() > 0 ==> tail[0] == '"',
        !mentions_token(head + "URI=\""@),
    ensures
        routed_tag(head + "URI=\""@ + value + tail, upstream, prefix) == head + "URI=\""@
            + routed_value(value, upstream, prefix) + routed_tag(tail, upstream, prefix),
        uri_values(head + "URI=\""@ + value + tail) == seq![value] + uri_values(tail),
{
    reveal_strlit("URI=\"");
    let key = "URI=\""@;
    let tag = head + key + value + tail;
    let k = head.len() as int;
    assert(tag.skip(k).take(5) =~= key);
    assert forall|i: int| 0 <= i < k implies !begins(#[trigger] tag.skip(i), key) by {
        beginnings_and_ends(tag.skip(i), key);
        assert(!key.is_prefix_of(tag.skip(i)));
    }
    lemma_uri_found(tag, 0, k);
    let at = k + 5;
    let end = at + value.len();
    assert forall|i: int| at <= i < end implies #[trigger] tag[i] != '"' by {
        assert(tag[i] == value[i - at]);
        assert(value.contains(value[i - at]));
    }
    if end < tag.len() {
        assert(tag[end] == tail[0]);
    }
    lemma_quote_found(tag, at, end);
    assert(tag.take(at) =~= head + key);
    assert(tag.subrange(at, end) =~= value);
    assert(tag.skip(end) =~= tail);
    assert(around_uri(tag) == Some((head + key, value, tail)));
}

/// A tag without a `URI` value is kept, and cut at its first mark where a token
/// stands in it.
pub proof fn tags_without_values_are_kept(tag: Seq<char>, upstream: Seq<char>, prefix: Seq<char>)
    requires
        forall|i: int| 0 <= i < tag.len() ==> !"URI=\""@.is_prefix_of(#[trigger] tag.skip(i)),
    ensures
        !mentions_token(tag) ==> routed_tag(tag, upstream, prefix) == tag,
        mentions_token(tag) ==> routed_tag(tag, upstream, prefix) == before_mark(tag),
        uri_values(tag) == Seq::<Seq<char>>::empty(),
{
    lemma_uri_absent(tag, 0);
}

/// A value that carries no token stays. One that does, and names a segment,
/// becomes the prefix, a slash and the encoded name of the segment; one that
/// names a playlist is given without the token; and one that names no URL ends
/// before its first mark.
pub proof fn values_with_a_token_are_routed(
    value: Seq<char>,
    upstream: Seq<char>,
    prefix: Seq<char>,
    u: Seq<char>,
    path: Seq<Seq<char>>,
)
    ensures
        !value_carries_token(value, upstream) ==> routed_value(value, upstream, prefix) == value,
        mentions_token(value) ==> value_carries_token(value, upstream),
        value_carries_token(value, upstream) && resolved(upstream, trimmed_start(value)) is None
            ==> routed_value(value, upstream, prefix) == before_mark(value),
        value_carries_token(value, upstream) && resolved(upstream, trimmed_start(value)) == Some(u)
            && !".m3u8"@.is_suffix_of(trimmed_start(value)) && path.len() > 0 && (parsed_url(
            stripped(u),
        ) matches Ok(url) && url.path_segments == Some(path)) ==> routed_value(
            value,
            upstream,
            prefix,
        ) == prefix + "/"@ + url_encoded(path.last()),
        value_carries_token(value, upstream) && resolved(upstream, trimmed_start(value)) == Some(u)
            && ".m3u8"@.is_suffix_of(trimmed_start(value)) && carries_no_token(stripped(u))
            ==> routed_value(value, upstream, prefix) == stripped(u),
{
    beginnings_and_ends(trimmed_start(value), ".m3u8"@);
}

/// A value carries a token exactly where one stands in it, or where it has a
/// question mark and the URL that it names has a pair of that name.
pub proof fn values_carry_tokens(value: Seq<char>, upstream: Seq<char>)
    ensures
        value_carries_token(value, upstream) <==> mentions_token(value) || (value.contains('?') && (
        resolved(upstream, trimmed_start(value)) matches Some(u) && (parsed_url(u) matches Ok(url)
            && exists|i: int|
            0 <= i < url.query_pairs.len() && (#[trigger] url.query_pairs[i]).0 == "token"@))),
{
    if let Some(u) = resolved(upstream, trimmed_start(value)) {
        if let Ok(url) = parsed_url(u) {
            assert(token_free(u) == no_token(url.query_pairs));
        }
    }
}

// ---------------------------------------------------------------------------
// Tokens
// ---------------------------------------------------------------------------

/// Taking the token out of a query drops exactly the pairs of that name, and
/// keeps the others in order.
pub proof fn only_tokens_are_dropped(
    front: Seq<(Seq<char>, Seq<char>)>,
    name: Seq<char>,
    value: Seq<char>,
)
    ensures
        tokenless(Seq::empty()) == Seq::<(Seq<char>, Seq<char>)>::empty(),
        name == "token"@ ==> tokenless(front.push((name, value))) == tokenless(front),
        name != "token"@ ==> tokenless(front.push((name, value))) == tokenless(front).push(
            (name, value),
        ),
{
    assert(front.push((name, value)).drop_last() =~= front);
}

/// A token stands in a text exactly where `token=` does behind a question mark
/// or an ampersand.
pub proof fn mentions_follow_a_mark(before: Seq<char>, after: Seq<char>, text: Seq<char>)
    ensures
        mentions_token(before + "?token="@ + after),
        mentions_token(before + "&token="@ + after),
        mentions_token(text) ==> exists|i: int|
            0 <= i < text.len() && ("?token="@.is_prefix_of(#[trigger] text.skip(i))
                || "&token="@.is_prefix_of(text.skip(i))),
{
    reveal_strlit("?token=");
    reveal_strlit("&token=");
    let a = before + "?token="@ + after;
    let b = before + "&token="@ + after;
    let k = before.len() as int;
    assert(a.skip(k).take(7) =~= "?token="@);
    assert(b.skip(k).take(7) =~= "&token="@);
    assert(token_at(a, k));
    assert(token_at(b, k));
    if mentions_token(text) {
        let i = choose|i: int| 0 <= i < text.len() && #[trigger] token_at(text, i);
        beginnings_and_ends(text.skip(i), "?token="@);
        beginnings_and_ends(text.skip(i), "&token="@);
        assert("?token="@.is_prefix_of(text.skip(i)) || "&token="@.is_prefix_of(text.skip(i)));
    }
}

/// A text is cut at its first mark, and nowhere else.
pub proof fn cuts_end_at_a_mark(text: Seq<char>)
    ensures
        before_mark(text).is_prefix_of(text),
        !before_mark(text).contains('?') && !before_mark(text).contains('&'),
        before_mark(text).len() < text.len() ==> text[before_mark(text).len() as int] == '?'
            || text[before_mark(text).len() as int] == '&',
    decreases text.len(),
{
    before_mark_is_unmarked(text);
    let n = before_mark(text).len() as int;
    assert(text.take(n) =~= text.subrange(0, n));
    if text.len() > 0 && text[0] != '?' && text[0] != '&' {
        cuts_end_at_a_mark(text.skip(1));
        if n < text.len() {
            assert(text.skip(1)[n - 1] == text[n]);
        }
    }
}

/// A message without a token is told in full; another ends at its first mark.
pub proof fn messages_are_told(text: Seq<char>)
    ensures
        !mentions_token(text) ==> told(text) == text,
        mentions_token(text) ==> told(text) == before_mark(text),
{
}

// ---------------------------------------------------------------------------
// Replies
// ---------------------------------------------------------------------------

/// Whether a reply is an error with this status and this message.
pub open spec fn is_failure(reply: ResponseView, status: u16, message: Seq<char>) -> bool {
    &&& reply.status == status
    &&& reply.headers == seq![("content-type"@, "application/json"@)]
    &&& reply.body == BodyView::Json(
        JsonView::Object(seq![("error"@, JsonView::Str(message))]),
    )
}

/// A playlist that came is answered with its rewritten text, or in direct mode
/// with a redirect to the stream.
pub proof fn playlists_are_answered(
    body: String,
    hls_url: Seq<char>,
    id: Seq<char>,
    base: Option<Seq<char>>,
)
    ensures
        ({
            let reply = playlist_outcome(PlaylistFetch::Body(body), hls_url, id, base, false);
            &&& reply.status == 200
            &&& reply.headers.len() == 2
            &&& reply.headers[0] == ("content-type"@, "application/vnd.apple.mpegurl"@)
            &&& reply.headers[1] == ("cache-control"@, "no-store"@)
            &&& reply.body == BodyView::Text(rewritten(body@, hls_url, id, base))
        }),
        is_header_value(hls_url) ==> ({
            let reply = playlist_outcome(PlaylistFetch::Body(body), hls_url, id, base, true);
            &&& reply.status == 302
            &&& reply.headers == seq![("location"@, hls_url)]
            &&& reply.body == BodyView::Empty
        }),
{
}

/// A playlist that did not come is answered with 502 and the reason, in either
/// mode.
pub proof fn missing_playlists_are_answered(
    reason: String,
    hls_url: Seq<char>,
    id: Seq<char>,
    base: Option<Seq<char>>,
    direct: bool,
)
    ensures
        is_failure(
            playlist_outcome(PlaylistFetch::NotSent(reason), hls_url, id, base, direct),
            502,
            told("playlist fetch failed: "@ + reason@),
        ),
        is_failure(
            playlist_outcome(PlaylistFetch::NotRead(reason), hls_url, id, base, direct),
            502,
            told("playlist body read failed: "@ + reason@),
        ),
        is_failure(
            playlist_outcome(PlaylistFetch::Failed(reason), hls_url, id, base, direct),
            502,
            told(reason@),
        ),
{
}

/// A segment of a known conversion is answered with a redirect to it, without
/// the token; one that cannot be joined, and one of an unknown conversion or of
/// a stream without a URL, are answered with what is wrong.
pub proof fn segments_are_answered(
    entry: ConvertEntry,
    hls_url: String,
    name: Seq<char>,
    u: Seq<char>,
    reason: Seq<char>,
)
    requires
        entry.stream.hls_url == Some(hls_url),
    ensures
        parsed_url(hls_url@) is Ok && joined_url(hls_url@, name) == Ok::<Seq<char>, Seq<char>>(u)
            && is_header_value(stripped(u)) ==> ({
            let reply = segment_outcome(Some(entry), name);
            &&& reply.status == 302
            &&& reply.headers == seq![("location"@, stripped(u))]
            &&& reply.body == BodyView::Empty
        }),
        parsed_url(hls_url@) is Ok && joined_url(hls_url@, name) == Err::<Seq<char>, Seq<char>>(
            reason,
        ) ==> is_failure(
            segment_outcome(Some(entry), name),
            502,
            "could not join segment: "@ + reason,
        ),
        parsed_url(hls_url@) == Err::<UrlView, Seq<char>>(reason) ==> is_failure(
            segment_outcome(Some(entry), name),
            502,
            "bad upstream URL: "@ + reason,
        ),
{
}

/// Segments that cannot be looked up.
pub proof fn unknown_segments_are_answered(entry: ConvertEntry, name: Seq<char>)
    ensures
        entry.stream.hls_url is None ==> is_failure(
            segment_outcome(Some(entry), name),
            502,
            "Torbox returned no hls_url"@,
        ),
        is_failure(
            segment_outcome(None, name),
            404,
            "Unknown convertId — playlist must be requested first"@,
        ),
{
}

/// A tag becomes what routing its values makes of it. Where the prefix has no
/// marks, it ends at its first mark if it would carry a token still.
pub proof fn tags_become_their_routing(line: Seq<char>, upstream: Seq<char>, prefix: Seq<char>)
    requires
        trimmed_start(line).len() > 0,
        trimmed_start(line)[0] == '#',
    ensures
        ({
            let routed = routed_tag(line, upstream, prefix);
            &&& no_marks(prefix) && carries_no_token(routed) ==> rewritten_line(
                line,
                upstream,
                prefix,
            ) == routed
            &&& no_marks(prefix) && !carries_no_token(routed) ==> rewritten_line(
                line,
                upstream,
                prefix,
            ) == before_mark(routed)
            &&& !no_marks(prefix) ==> rewritten_line(line, upstream, prefix) == routed
        }),
        no_marks(prefix) <==> !prefix.contains('?') && !prefix.contains('&'),
{
    lines_are_told_apart(line);
    if !prefix.contains('?') && !prefix.contains('&') {
        assert forall|i: int| 0 <= i < prefix.len() implies #[trigger] prefix[i] != '?' && prefix[i]
            != '&' by {
            assert(prefix.contains(prefix[i]));
        }
    }
}

/// A blank line is copied.
pub proof fn blank_lines_are_copied(line: Seq<char>, upstream: Seq<char>, prefix: Seq<char>)
    requires
        trimmed_start(line).len() == 0,
    ensures
        rewritten_line(line, upstream, prefix) == line,
{
}

/// The name of a file is the last segment of the path of its URL; a text that is
/// no URL, and one without a path, is its own name.
pub proof fn files_are_named_by_their_path(url: Seq<char>, path: Seq<Seq<char>>)
    ensures
        path.len() > 0 && (parsed_url(url) matches Ok(parts) && parts.path_segments == Some(path))
            ==> file_of(url) == path.last(),
        parsed_url(url) is Err ==> file_of(url) == url,
        (parsed_url(url) matches Ok(parts) && (parts.path_segments is None || parts.path_segments
            == Some(Seq::<Seq<char>>::empty()))) ==> file_of(url) == url,
{
}

/// The line for a segment, and the URL that joining a name gives.
pub proof fn segments_are_asked_for_by_name(
    prefix: Seq<char>,
    name: Seq<char>,
    playlist_url: Seq<char>,
    u: Seq<char>,
)
    ensures
        segment_line(prefix, name) == prefix + "/"@ + url_encoded(name),
        parsed_url(playlist_url) is Ok && joined_url(playlist_url, name) == Ok::<
            Seq<char>,
            Seq<char>,
        >(u) ==> segment_url(playlist_url, name) == Ok::<Seq<char>, Seq<char>>(u),
{
}

/// A text that is no URL has no token to take out. A URL keeps its query but for
/// the tokens, and its fragment.
pub proof fn urls_lose_only_their_tokens(url: Seq<char>, parts: UrlView)
    ensures
        parsed_url(url) is Err ==> stripped(url) == url,
        parsed_url(url) == Ok::<UrlView, Seq<char>>(parts) && tokenless(parts.query_pairs).len() > 0
            && parts.fragment is None ==> Some(stripped(url)) == Some(
            requeried_url(url, tokenless(parts.query_pairs))->Some_0,
        ),
        parsed_url(url) == Ok::<UrlView, Seq<char>>(parts) && tokenless(parts.query_pairs).len() > 0
            ==> (parts.fragment matches Some(f) ==> stripped(url) == requeried_url(
            url,
            tokenless(parts.query_pairs),
        )->Some_0 + ("#"@ + f)),
        parsed_url(url) == Ok::<UrlView, Seq<char>>(parts) && tokenless(parts.query_pairs).len()
            == 0 ==> stripped(url) == unqueried_url(url)->Some_0,
{
    if let Ok(p) = parsed_url(url) {
        if tokenless(p.query_pairs).len() > 0 && p.fragment is None {
            let bare = requeried_url(url, tokenless(p.query_pairs))->Some_0;
            assert(bare + fragment_text(p.fragment) =~= bare);
        }
    }
}

/// An action stands for what it holds.
pub proof fn actions_stand_for_what_they_hold(reason: String)
    ensures
        WarmupAction::ReadBody@ == WarmupActionView::ReadBody,
        WarmupAction::Retry@ == WarmupActionView::Retry,
        WarmupAction::Fail(reason)@ == WarmupActionView::Fail(reason@),
{
}

} // verus!
