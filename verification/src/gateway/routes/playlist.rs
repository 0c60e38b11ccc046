//! HLS playlists, rewritten so that the player asks this gateway for segments
//! and no line carries a token.
use vstd::prelude::*;
use vstd::string::*;

use crate::bindings::{
    is_plain_name, joined_url, joins_name, parse_view, parsed_url, reads_as_itself, text_result,
    url_join, url_parse, UrlParts, UrlView,
};
use crate::gateway::routes::helpers::{
    encoded_values_are_plain, is_encoded_char, url_encode, url_encoded,
};
use crate::gateway::routes::token::{
    before_mark, before_mark_is_unmarked, cut_at_mark, has_marks, has_mention, hide_mention,
    is_token_free, joined_texts_mention_none, mentions_token, no_marks, parts_mention_none,
    strip_token, stripped, token_free, told, told_mentions_none, unmarked_is_before_mark,
};
use crate::laws::text::beginnings_and_ends;
use crate::text::{
    begins, chars_of, ends, ends_with, is_break, is_white_space, lines, lines_from, next_line_feed,
    no_breaks, opt_str, opt_text, split_lines, stands_at, starts_with, texts, trim_end_slashes,
    trim_start, trimmed_start, without_end_slashes, without_return,
};

verus! {

// ---------------------------------------------------------------------------
// Names of segments
// ---------------------------------------------------------------------------

/// The last segment of a URL's path; nothing where the path is opaque.
pub open spec fn last_segment(url: UrlView) -> Option<Seq<char>> {
    match url.path_segments {
        Some(segments) => if segments.len() > 0 {
            Some(segments.last())
        } else {
            None
        },
        None => None,
    }
}

/// Reads the last segment of a URL's path.
pub fn last_segment_of(url: &UrlParts) -> (r: Option<String>)
    ensures
        opt_text(r) == last_segment(url@),
{
    match &url.path_segments {
        Some(segments) => {
            let n: usize = segments.len();
            if n > 0 {
                proof {
                    assert(texts(segments@).last() == segments@[n - 1]@);
                }
                Some(segments[n - 1].clone())
            } else {
                None
            }
        },
        None => None,
    }
}

/// The name of the file that a text names as a URL; the text itself where it
/// names none.
pub open spec fn file_of(url: Seq<char>) -> Seq<char> {
    match parsed_url(url) {
        Ok(parts) => match last_segment(parts) {
            Some(name) => name,
            None => url,
        },
        Err(_) => url,
    }
}

/// Reads the name of the file that a URL names.
pub fn extract_last_path_segment(url: &str) -> (r: String)
    ensures
        r@ == file_of(url@),
{
    match url_parse(url) {
        Ok(parts) => match last_segment_of(&parts) {
            Some(name) => name,
            None => url.to_owned(),
        },
        Err(_) => url.to_owned(),
    }
}

/// Whether a text is an absolute URL of the web.
pub open spec fn is_web_url(text: Seq<char>) -> bool {
    begins(text, "http://"@) || begins(text, "https://"@)
}

/// The URL that a line of a playlist names.
pub open spec fn resolved(base_url: Seq<char>, candidate: Seq<char>) -> Option<Seq<char>> {
    if is_web_url(candidate) {
        Some(candidate)
    } else {
        match joined_url(base_url, candidate) {
            Ok(url) => Some(url),
            Err(_) => None,
        }
    }
}

/// Resolves a line of a playlist against the URL of the playlist. A plain name
/// takes the place of the last segment of a URL of the web.
pub fn resolve_relative(base_url: &str, candidate: &str) -> (r: Result<String, ()>)
    ensures
        match resolved(base_url@, candidate@) {
            Some(url) => r matches Ok(text) && text@ == url,
            None => r is Err,
        },
        is_plain_name(candidate@) ==> joins_name(
            parsed_url(base_url@),
            candidate@,
            joined_url(base_url@, candidate@),
        ),
        r matches Ok(text) ==> no_breaks(candidate@) ==> no_breaks(text@),
{
    proof {
        if is_plain_name(candidate@) {
            lemma_plain_name(candidate@);
        }
    }
    if starts_with(candidate, "http://") || starts_with(candidate, "https://") {
        return Ok(candidate.to_owned());
    }
    match url_join(base_url, candidate) {
        Ok(url) => Ok(url),
        Err(_) => Err(()),
    }
}

/// The URL of a segment, or why there is none: what parsing the URL of the
/// playlist gave, then what joining the two gave.
pub open spec fn segment_join(
    base: Result<UrlView, Seq<char>>,
    joined: Result<Seq<char>, Seq<char>>,
) -> Result<Seq<char>, Seq<char>> {
    match base {
        Ok(_) => match joined {
            Ok(url) => Ok(url),
            Err(reason) => Err("could not join segment: "@ + reason),
        },
        Err(reason) => Err("bad upstream URL: "@ + reason),
    }
}

/// Says what became of joining a segment's name to the URL of its playlist.
pub fn segment_join_outcome(
    base: Result<UrlParts, String>,
    joined: Result<String, String>,
) -> (r: Result<String, String>)
    ensures
        text_result(r) == segment_join(
            parse_view(base),
            text_result(joined),
        ),
{
    match base {
        Ok(_) => match joined {
            Ok(url) => Ok(url),
            Err(reason) => {
                let mut message = "could not join segment: ".to_owned();
                message.append(&reason);
                Err(message)
            },
        },
        Err(reason) => {
            let mut message = "bad upstream URL: ".to_owned();
            message.append(&reason);
            Err(message)
        },
    }
}

/// The URL of a segment of a playlist, or why there is none.
pub open spec fn segment_url(playlist_url: Seq<char>, segment_name: Seq<char>) -> Result<
    Seq<char>,
    Seq<char>,
> {
    segment_join(parsed_url(playlist_url), joined_url(playlist_url, segment_name))
}

/// Joins a segment's name to the URL of its playlist. A plain name takes the
/// place of the last segment of a URL of the web.
pub fn join_segment_url(playlist_url: &str, segment_name: &str) -> (r: Result<String, String>)
    ensures
        text_result(r) == segment_url(playlist_url@, segment_name@),
        joins_name(parsed_url(playlist_url@), segment_name@, text_result(r)),
{
    let base = url_parse(playlist_url);
    let joined = url_join(playlist_url, segment_name);
    segment_join_outcome(base, joined)
}

// ---------------------------------------------------------------------------
// Rewriting
// ---------------------------------------------------------------------------

/// What stands before the names of the segments of a playlist.
pub open spec fn segment_prefix(convert_id: Seq<char>, public_base: Option<Seq<char>>) -> Seq<
    char,
> {
    match public_base {
        Some(base) => without_end_slashes(base) + "/hlsv2/"@ + convert_id,
        None => "/hlsv2/"@ + convert_id,
    }
}

/// Builds what stands before the names of the segments of a playlist.
pub fn build_segment_prefix(convert_id: &str, public_base: Option<&str>) -> (r: String)
    ensures
        r@ == segment_prefix(convert_id@, opt_str(public_base)),
{
    let mut out = match public_base {
        Some(base) => {
            let mut out = trim_end_slashes(base).to_owned();
            out.append("/hlsv2/");
            out
        },
        None => "/hlsv2/".to_owned(),
    };
    out.append(convert_id);
    out
}

/// What a line of a playlist is.
#[derive(Debug, Clone, Copy, PartialEq, Eq)]
pub enum LineKind {
    /// White space at most.
    Blank,
    /// A tag or a comment.
    Tag,
    /// The URL of another playlist.
    Playlist,
    /// The URL of a segment.
    Segment,
}

/// What a line of a playlist is.
pub open spec fn line_kind(line: Seq<char>) -> LineKind {
    let text = trimmed_start(line);
    if text.len() == 0 {
        LineKind::Blank
    } else if text[0] == '#' {
        LineKind::Tag
    } else if ends(text, ".m3u8"@) {
        LineKind::Playlist
    } else {
        LineKind::Segment
    }
}

/// Tells what a line of a playlist is.
pub fn kind_of_line(line: &str) -> (r: LineKind)
    ensures
        r == line_kind(line@),
{
    let text = trim_start(line);
    if text.unicode_len() == 0 {
        LineKind::Blank
    } else if text.get_char(0) == '#' {
        LineKind::Tag
    } else if ends_with(text, ".m3u8") {
        LineKind::Playlist
    } else {
        LineKind::Segment
    }
}

/// The line that asks this gateway for a segment.
pub open spec fn segment_line(prefix: Seq<char>, name: Seq<char>) -> Seq<char> {
    prefix + "/"@ + url_encoded(name)
}

/// Writes the line that asks this gateway for a segment.
pub fn line_for_segment(prefix: &str, name: &str) -> (r: String)
    ensures
        r@ == segment_line(prefix@, name@),
{
    let mut out = prefix.to_owned();
    out.append("/");
    out.append(&url_encode(name));
    out
}

/// Whether a text is the plain name of a file that is no playlist, beside a
/// playlist of the web whose own text is read as its URL.
pub open spec fn names_beside(upstream_url: Seq<char>, text: Seq<char>) -> bool {
    is_plain_name(text) && !ends(text, ".m3u8"@) && (parsed_url(upstream_url) matches Ok(url)
        && reads_as_itself(url))
}

/// A plain name is resolved by joining it to the URL of the playlist.
pub proof fn plain_names_resolve(playlist_url: Seq<char>, name: Seq<char>)
    requires
        names_beside(playlist_url, name),
    ensures
        trimmed_start(name) == name,
        line_kind(name) == LineKind::Segment,
        resolved(playlist_url, name) == (match joined_url(playlist_url, name) {
            Ok(url) => Some(url),
            Err(_) => None,
        }),
{
    lemma_plain_name(name);
}

proof fn lemma_plain_name(name: Seq<char>)
    requires
        is_plain_name(name),
    ensures
        trimmed_start(name) == name,
        !is_web_url(name),
        line_kind(name) == (if ends(name, ".m3u8"@) {
            LineKind::Playlist
        } else {
            LineKind::Segment
        }),
{
    assert(name.len() > 0);
    assert(!is_white_space(name[0]));
    reveal_strlit("http://");
    reveal_strlit("https://");
    if begins(name, "http://"@) {
        assert(name.take(7)[4] == name[4]);
    }
    if begins(name, "https://"@) {
        assert(name.take(8)[5] == name[5]);
    }
}

// ---------------------------------------------------------------------------
// Tags
// ---------------------------------------------------------------------------

/// The position behind the first `URI="` of a tag, from `from` on.
pub open spec fn uri_start(tag: Seq<char>, from: int) -> Option<int>
    decreases tag.len() - from,
{
    if from < 0 || from >= tag.len() {
        None
    } else if begins(tag.skip(from), "URI=\""@) {
        Some(from + 5)
    } else {
        uri_start(tag, from + 1)
    }
}

/// The position of the first quotation mark; the length where there is none.
pub open spec fn next_quote(s: Seq<char>, from: int) -> int
    decreases s.len() - from,
{
    if from < 0 || from >= s.len() {
        s.len() as int
    } else if s[from] == '"' {
        from
    } else {
        next_quote(s, from + 1)
    }
}

proof fn lemma_uri_start(tag: Seq<char>, from: int)
    requires
        0 <= from,
    ensures
        uri_start(tag, from) matches Some(at) ==> from + 5 <= at <= tag.len(),
    decreases tag.len() - from,
{
    reveal_strlit("URI=\"");
    if from < tag.len() && !begins(tag.skip(from), "URI=\""@) {
        lemma_uri_start(tag, from + 1);
    }
}

proof fn lemma_next_quote(s: Seq<char>, from: int)
    requires
        0 <= from <= s.len(),
    ensures
        from <= next_quote(s, from) <= s.len(),
    decreases s.len() - from,
{
    if from < s.len() && s[from] != '"' {
        lemma_next_quote(s, from + 1);
    }
}

/// The parts of a tag around its first `URI` value: what stands before the
/// value, the value, and what follows it.
pub open spec fn around_uri(tag: Seq<char>) -> Option<(Seq<char>, Seq<char>, Seq<char>)> {
    match uri_start(tag, 0) {
        Some(at) => {
            let end = next_quote(tag, at);
            Some((tag.take(at), tag.subrange(at, end), tag.skip(end)))
        },
        None => None,
    }
}

proof fn lemma_around_uri(tag: Seq<char>)
    ensures
        around_uri(tag) matches Some(parts) ==> parts.0 + parts.1 + parts.2 == tag && parts.2.len()
            < tag.len(),
{
    lemma_uri_start(tag, 0);
    if let Some(at) = uri_start(tag, 0) {
        lemma_next_quote(tag, at);
    }
}

/// The `URI` values of a tag, in order.
pub open spec fn uri_values(tag: Seq<char>) -> Seq<Seq<char>>
    decreases tag.len(),
    via uri_values_decreases
{
    match around_uri(tag) {
        Some(parts) => seq![parts.1] + uri_values(parts.2),
        None => Seq::empty(),
    }
}

#[via_fn]
proof fn uri_values_decreases(tag: Seq<char>) {
    lemma_around_uri(tag);
}

/// Whether a value of a tag carries a token: one stands in it, or the value
/// has a query and names a URL with a token.
pub open spec fn value_carries_token(value: Seq<char>, upstream_url: Seq<char>) -> bool {
    mentions_token(value) || (value.contains('?') && (resolved(
        upstream_url,
        trimmed_start(value),
    ) matches Some(url) && !token_free(url)))
}

/// A value of a tag. One that carries a token is routed as a line is, or cut
/// before the token where it names no URL; every other value stays.
pub open spec fn routed_value(
    value: Seq<char>,
    upstream_url: Seq<char>,
    prefix: Seq<char>,
) -> Seq<char> {
    if value_carries_token(value, upstream_url) {
        match resolved(upstream_url, trimmed_start(value)) {
            Some(url) => if ends(trimmed_start(value), ".m3u8"@) {
                kept(stripped(url))
            } else {
                segment_line(prefix, file_of(stripped(url)))
            },
            None => before_mark(value),
        }
    } else {
        value
    }
}

/// A tag whose `URI` values that carry a token are routed as lines are. Where a
/// token stands outside the values, the tag is cut before it.
pub open spec fn routed_tag(
    tag: Seq<char>,
    upstream_url: Seq<char>,
    prefix: Seq<char>,
) -> Seq<char>
    decreases tag.len(),
    via routed_tag_decreases
{
    match around_uri(tag) {
        Some(parts) => if mentions_token(parts.0) {
            before_mark(parts.0)
        } else {
            parts.0 + routed_value(parts.1, upstream_url, prefix) + routed_tag(
                parts.2,
                upstream_url,
                prefix,
            )
        },
        None => told(tag),
    }
}

#[via_fn]
proof fn routed_tag_decreases(tag: Seq<char>, upstream_url: Seq<char>, prefix: Seq<char>) {
    lemma_around_uri(tag);
}

/// The position behind the first `URI="` of a tag.
fn find_uri(cs: &Vec<char>) -> (r: Option<usize>)
    ensures
        match uri_start(cs@, 0) {
            Some(at) => r matches Some(k) && k == at && k <= cs@.len(),
            None => r is None,
        },
{
    let pattern = chars_of("URI=\"");
    let n: usize = cs.len();
    let mut i: usize = 0;
    while i < n
        invariant
            i <= n,
            n == cs@.len(),
            pattern@ == "URI=\""@,
            uri_start(cs@, 0) == uri_start(cs@, i as int),
        decreases n - i,
    {
        if stands_at(cs, i, &pattern) {
            proof {
                lemma_uri_start(cs@, i as int);
            }
            return Some(i + 5);
        }
        i = i + 1;
    }
    None
}

/// Splits a tag around its first `URI` value.
fn split_uri<'a>(tag: &'a str) -> (r: Option<(&'a str, &'a str, &'a str)>)
    ensures
        match around_uri(tag@) {
            Some(parts) => r matches Some(p) && p.0@ == parts.0 && p.1@ == parts.1 && p.2@
                == parts.2,
            None => r is None,
        },
{
    let cs = chars_of(tag);
    let n: usize = cs.len();
    match find_uri(&cs) {
        Some(at) => {
            let mut end: usize = at;
            while end < n && cs[end] != '"'
                invariant
                    at <= end <= n,
                    n == cs@.len(),
                    cs@ == tag@,
                    next_quote(tag@, at as int) == next_quote(tag@, end as int),
                decreases n - end,
            {
                end = end + 1;
            }
            let head = tag.substring_char(0, at);
            let value = tag.substring_char(at, end);
            let tail = tag.substring_char(end, n);
            proof {
                assert(head@ == tag@.take(at as int));
                assert(tail@ == tag@.skip(end as int));
            }
            Some((head, value, tail))
        },
        None => None,
    }
}

// ---------------------------------------------------------------------------
// Lines
// ---------------------------------------------------------------------------

/// Whether the `URI` values of a tag, read as URLs, carry no token.
pub open spec fn values_are_token_free(tag: Seq<char>) -> bool {
    forall|i: int| 0 <= i < uri_values(tag).len() ==> token_free(#[trigger] uri_values(tag)[i])
}

/// Whether a line carries no token: none stands in it as it does in a query,
/// and read as a URL, the line carries none, or each of its `URI` values where
/// it is a tag.
pub open spec fn carries_no_token(line: Seq<char>) -> bool {
    !mentions_token(line) && if line_kind(line) == LineKind::Tag {
        values_are_token_free(line)
    } else {
        token_free(line)
    }
}

fn has_free_values(tag: &str) -> (r: bool)
    ensures
        r == values_are_token_free(tag@),
        no_marks(tag@) ==> r,
    decreases tag@.len(),
{
    proof {
        lemma_around_uri(tag@);
    }
    match split_uri(tag) {
        Some((head, value, tail)) => {
            let ghost all = uri_values(tag@);
            let ghost later = uri_values(tail@);
            proof {
                assert(all == seq![value@] + later);
                assert(all[0] == value@);
                assert(forall|i: int| 0 <= i < later.len() ==> #[trigger] later[i] == all[i + 1]);
                if no_marks(tag@) {
                    lemma_unmarked_parts(head@, value@, tail@);
                }
            }
            let first: bool = is_token_free(value);
            let others: bool = has_free_values(tail);
            proof {
                if first && others {
                    assert forall|i: int| 0 <= i < all.len() implies token_free(
                        #[trigger] all[i],
                    ) by {
                        if i > 0 {
                            assert(later[i - 1] == all[i]);
                        }
                    }
                }
                if values_are_token_free(tag@) {
                    assert forall|i: int| 0 <= i < later.len() implies token_free(
                        #[trigger] later[i],
                    ) by {
                        assert(token_free(all[i + 1]));
                    }
                }
            }
            first && others
        },
        None => true,
    }
}

proof fn lemma_unmarked_parts(a: Seq<char>, b: Seq<char>, c: Seq<char>)
    requires
        no_marks(a + b + c),
    ensures
        no_marks(b),
        no_marks(c),
{
    let all = a + b + c;
    assert forall|i: int| 0 <= i < b.len() implies #[trigger] b[i] != '?' && b[i] != '&' by {
        assert(all[a.len() + i] == b[i]);
    }
    assert forall|i: int| 0 <= i < c.len() implies #[trigger] c[i] != '?' && c[i] != '&' by {
        assert(all[a.len() + b.len() + i] == c[i]);
    }
}

/// Tells whether a line carries no token.
pub fn is_clean_line(line: &str) -> (r: bool)
    ensures
        r == carries_no_token(line@),
        no_marks(line@) ==> r,
{
    proof {
        if no_marks(line@) {
            unmarked_is_before_mark(line@);
        }
    }
    if has_mention(line) {
        return false;
    }
    match kind_of_line(line) {
        LineKind::Tag => has_free_values(line),
        _ => is_token_free(line),
    }
}

/// A line, cut before the first question mark or ampersand where it would carry
/// a token.
pub open spec fn kept(line: Seq<char>) -> Seq<char> {
    if carries_no_token(line) {
        line
    } else {
        before_mark(line)
    }
}

proof fn lemma_prefix_breaks(text: Seq<char>)
    requires
        no_breaks(text),
    ensures
        no_breaks(before_mark(text)),
{
    before_mark_is_unmarked(text);
    assert forall|i: int| 0 <= i < before_mark(text).len() implies !is_break(
        #[trigger] before_mark(text)[i],
    ) by {
        assert(before_mark(text)[i] == text[i]);
    }
}

/// Makes a line one that the player may be given.
pub fn keep_line(line: &str) -> (r: String)
    ensures
        r@ == kept(line@),
        carries_no_token(r@),
        no_breaks(line@) ==> no_breaks(r@),
{
    if is_clean_line(line) {
        return line.to_owned();
    }
    let head = cut_at_mark(line);
    let clean: bool = is_clean_line(head);
    proof {
        assert(clean);
        if no_breaks(line@) {
            lemma_prefix_breaks(line@);
        }
    }
    head.to_owned()
}

/// A line that holds the prefix of this gateway. Marks in the prefix are the
/// gateway's own, and the line is not cut on their account.
pub open spec fn own_line(line: Seq<char>, prefix: Seq<char>) -> Seq<char> {
    if no_marks(prefix) {
        kept(line)
    } else {
        line
    }
}

/// Makes a line that holds the prefix one that the player may be given.
fn keep_own_line(line: &str, prefix: &str) -> (r: String)
    ensures
        r@ == own_line(line@, prefix@),
        no_marks(prefix@) ==> carries_no_token(r@),
        no_breaks(line@) ==> no_breaks(r@),
{
    if has_marks(prefix) {
        line.to_owned()
    } else {
        keep_line(line)
    }
}

/// The line for a segment is given as it is, whatever the prefix.
pub proof fn segment_lines_stay(prefix: Seq<char>, name: Seq<char>)
    ensures
        own_line(segment_line(prefix, name), prefix) == segment_line(prefix, name),
        no_breaks(prefix) ==> no_breaks(segment_line(prefix, name)),
        !mentions_token(prefix) ==> !mentions_token(segment_line(prefix, name)),
{
    let line = segment_line(prefix, name);
    let code = url_encoded(name);
    reveal_strlit("/");
    assert forall|i: int| 0 <= i < code.len() implies #[trigger] code[i] != '?' && code[i] != '&'
        && !is_break(code[i]) by {
        encoded_values_are_plain(name, i);
    }
    assert forall|i: int| prefix.len() <= i < line.len() implies #[trigger] line[i] != '?' && line[i]
        != '&' && !is_break(line[i]) by {
        if i > prefix.len() {
            assert(line[i] == code[i - prefix.len() - 1]);
        }
    }
    assert(forall|i: int| 0 <= i < prefix.len() ==> #[trigger] line[i] == prefix[i]);
    if no_marks(prefix) {
        assert forall|i: int| 0 <= i < line.len() implies #[trigger] line[i] != '?' && line[i]
            != '&' by {
            if i < prefix.len() {
                assert(prefix[i] != '?' && prefix[i] != '&');
            }
        }
        unmarked_is_before_mark(line);
    }
    if no_breaks(prefix) {
        assert forall|i: int| 0 <= i < line.len() implies !is_break(#[trigger] line[i]) by {
            if i < prefix.len() {
                assert(!is_break(prefix[i]));
            }
        }
    }
    if !mentions_token(prefix) {
        assert(no_marks("/"@));
        assert(no_marks(code));
        unmarked_is_before_mark("/"@);
        unmarked_is_before_mark(code);
        joined_texts_mention_none(prefix, "/"@);
        joined_texts_mention_none(prefix + "/"@, code);
    }
}

/// A line of the rewritten playlist. Another playlist is named by its URL
/// without the token, a segment by its name on this gateway. Every other line is
/// copied but for the tokens in it.
pub open spec fn rewritten_line(
    line: Seq<char>,
    upstream_url: Seq<char>,
    prefix: Seq<char>,
) -> Seq<char> {
    match line_kind(line) {
        LineKind::Blank => line,
        LineKind::Tag => own_line(routed_tag(line, upstream_url, prefix), prefix),
        LineKind::Playlist => match resolved(upstream_url, trimmed_start(line)) {
            Some(url) => kept(stripped(url)),
            None => kept(line),
        },
        LineKind::Segment => match resolved(upstream_url, trimmed_start(line)) {
            Some(url) => segment_line(prefix, file_of(stripped(url))),
            None => kept(line),
        },
    }
}

proof fn lemma_trimmed_breaks(text: Seq<char>)
    requires
        no_breaks(text),
    ensures
        no_breaks(trimmed_start(text)),
    decreases text.len(),
{
    if text.len() > 0 && is_white_space(text[0]) {
        let rest = text.drop_first();
        assert forall|i: int| 0 <= i < rest.len() implies !is_break(#[trigger] rest[i]) by {
            assert(!is_break(text[i + 1]));
        }
        lemma_trimmed_breaks(rest);
    }
}

/// White space holds no marks.
proof fn lemma_blank_is_unmarked(line: Seq<char>)
    requires
        trimmed_start(line).len() == 0,
    ensures
        no_marks(line),
    decreases line.len(),
{
    if line.len() > 0 {
        lemma_blank_is_unmarked(line.drop_first());
        assert forall|i: int| 0 <= i < line.len() implies #[trigger] line[i] != '?' && line[i]
            != '&' by {
            if i > 0 {
                assert(line.drop_first()[i - 1] == line[i]);
            }
        }
    }
}

/// Tells whether a value of a tag carries a token.
fn has_token(value: &str, upstream_url: &str) -> (r: bool)
    ensures
        r == value_carries_token(value@, upstream_url@),
{
    if has_mention(value) {
        return true;
    }
    if !has_question_mark(value) {
        return false;
    }
    match resolve_relative(upstream_url, trim_start(value)) {
        Ok(url) => !is_token_free(&url),
        Err(_) => false,
    }
}

fn has_question_mark(text: &str) -> (r: bool)
    ensures
        r == text@.contains('?'),
{
    let cs = chars_of(text);
    let n: usize = cs.len();
    let mut i: usize = 0;
    while i < n
        invariant
            i <= n,
            n == cs@.len(),
            cs@ == text@,
            forall|j: int| 0 <= j < i ==> #[trigger] text@[j] != '?',
        decreases n - i,
    {
        if cs[i] == '?' {
            proof {
                assert(text@[i as int] == '?');
            }
            return true;
        }
        i = i + 1;
    }
    false
}

/// Routes a value of a tag that carries a token; leaves every other as it is.
pub fn route_value(value: &str, upstream_url: &str, prefix: &str) -> (r: String)
    ensures
        r@ == routed_value(value@, upstream_url@, prefix@),
        no_breaks(value@) && no_breaks(prefix@) ==> no_breaks(r@),
{
    if !has_token(value, upstream_url) {
        return value.to_owned();
    }
    let name = trim_start(value);
    proof {
        if no_breaks(value@) {
            lemma_trimmed_breaks(value@);
            lemma_prefix_breaks(value@);
        }
    }
    match resolve_relative(upstream_url, name) {
        Ok(url) => {
            let upstream = strip_token(&url);
            if ends_with(name, ".m3u8") {
                keep_line(&upstream)
            } else {
                let file = extract_last_path_segment(&upstream);
                proof {
                    segment_lines_stay(prefix@, file@);
                }
                line_for_segment(prefix, &file)
            }
        },
        Err(_) => cut_at_mark(value).to_owned(),
    }
}

proof fn lemma_parts_breaks(a: Seq<char>, b: Seq<char>, c: Seq<char>)
    ensures
        no_breaks(a + b + c) <==> no_breaks(a) && no_breaks(b) && no_breaks(c),
{
    let all = a + b + c;
    if no_breaks(all) {
        assert forall|i: int| 0 <= i < a.len() implies !is_break(#[trigger] a[i]) by {
            assert(all[i] == a[i]);
        }
        assert forall|i: int| 0 <= i < b.len() implies !is_break(#[trigger] b[i]) by {
            assert(all[a.len() + i] == b[i]);
        }
        assert forall|i: int| 0 <= i < c.len() implies !is_break(#[trigger] c[i]) by {
            assert(all[a.len() + b.len() + i] == c[i]);
        }
    }
    if no_breaks(a) && no_breaks(b) && no_breaks(c) {
        assert forall|i: int| 0 <= i < all.len() implies !is_break(#[trigger] all[i]) by {
            if i < a.len() {
                assert(all[i] == a[i]);
            } else if i < a.len() + b.len() {
                assert(all[i] == b[i - a.len()]);
            } else {
                assert(all[i] == c[i - a.len() - b.len()]);
            }
        }
    }
}

/// Routes the `URI` values of a tag that carry a token as lines are, and keeps
/// a token outside them back.
pub fn route_tag(tag: &str, upstream_url: &str, prefix: &str) -> (r: String)
    ensures
        r@ == routed_tag(tag@, upstream_url@, prefix@),
        no_breaks(tag@) && no_breaks(prefix@) ==> no_breaks(r@),
    decreases tag@.len(),
{
    proof {
        lemma_around_uri(tag@);
        if no_breaks(tag@) {
            lemma_prefix_breaks(tag@);
        }
    }
    match split_uri(tag) {
        Some((head, value, tail)) => {
            proof {
                lemma_parts_breaks(head@, value@, tail@);
            }
            if has_mention(head) {
                proof {
                    if no_breaks(head@) {
                        lemma_prefix_breaks(head@);
                    }
                }
                return cut_at_mark(head).to_owned();
            }
            let routed = route_value(value, upstream_url, prefix);
            let rest = route_tag(tail, upstream_url, prefix);
            let mut out = head.to_owned();
            out.append(&routed);
            out.append(&rest);
            proof {
                lemma_parts_breaks(head@, routed@, rest@);
            }
            out
        },
        None => hide_mention(tag),
    }
}

proof fn lemma_no_marks(text: Seq<char>)
    ensures
        no_marks(text) <==> !text.contains('?') && !text.contains('&'),
{
    if !text.contains('?') && !text.contains('&') {
        assert forall|i: int| 0 <= i < text.len() implies #[trigger] text[i] != '?' && text[i]
            != '&' by {
            assert(text.contains(text[i]));
        }
    }
}

/// Rewrites a line of a playlist. Where the prefix has no marks, the result
/// carries no token. Where the line and the prefix have no breaks, neither has
/// the result. A plain name beside a playlist of the web becomes that name on
/// this gateway.
///
/// A line of another kind than a tag or a playlist, absolute or not, becomes the
/// prefix, a slash and the encoded last segment of the path of the URL that it
/// names, whether the path is read with the token or without. The URL of another
/// playlist that has no query and no marks is given as it reads.
pub fn rewrite_line(line: &str, upstream_url: &str, prefix: &str) -> (r: String)
    ensures
        r@ == rewritten_line(line@, upstream_url@, prefix@),
        no_marks(prefix@) ==> carries_no_token(r@),
        no_breaks(line@) && no_breaks(prefix@) ==> no_breaks(r@),
        names_beside(upstream_url@, line@) ==> r@ == segment_line(prefix@, line@),
        ({
            let t = trimmed_start(line@);
            let named = if "http://"@.is_prefix_of(t) || "https://"@.is_prefix_of(t) {
                Ok(t)
            } else {
                joined_url(upstream_url@, t)
            };
            &&& t.len() > 0 && t[0] != '#' && !".m3u8"@.is_suffix_of(t) ==> (named matches Ok(u) ==> {
                &&& parsed_url(u) matches Ok(url) ==> reads_as_itself(url) && (url.query is None
                    || stripped(u).len() <= u32::MAX) ==> (url.path_segments matches Some(path)
                    ==> path.len() > 0 ==> r@ == prefix@ + "/"@ + url_encoded(path.last()))
                &&& parsed_url(stripped(u)) matches Ok(url) ==> (url.path_segments matches Some(path)
                    ==> path.len() > 0 ==> r@ == prefix@ + "/"@ + url_encoded(path.last()))
            })
            &&& t.len() > 0 && t[0] != '#' && ".m3u8"@.is_suffix_of(t) ==> (named matches Ok(u) ==> (
            parsed_url(u) matches Ok(url) ==> (url.scheme == "http"@ || url.scheme == "https"@)
                && url.query is None && !url.text.contains('?') && !url.text.contains('&') ==> r@
                == url.text))
            &&& t.len() > 0 && t[0] != '#' && named is Err && !line@.contains('?')
                && !line@.contains('&') ==> r@ == line@
        }),
{
    proof {
        if names_beside(upstream_url@, line@) {
            lemma_plain_name(line@);
        }
        let t = trimmed_start(line@);
        beginnings_and_ends(t, "http://"@);
        beginnings_and_ends(t, "https://"@);
        beginnings_and_ends(t, ".m3u8"@);
        lemma_no_marks(line@);
        if no_marks(line@) {
            unmarked_is_before_mark(line@);
        }
        if no_breaks(line@) {
            lemma_trimmed_breaks(line@);
        }
    }
    let kind = kind_of_line(line);
    if let LineKind::Blank = kind {
        proof {
            lemma_blank_is_unmarked(line@);
            unmarked_is_before_mark(line@);
        }
        return keep_line(line);
    }
    if let LineKind::Tag = kind {
        return keep_own_line(&route_tag(line, upstream_url, prefix), prefix);
    }
    match resolve_relative(upstream_url, trim_start(line)) {
        Ok(url) => {
            let upstream = strip_token(&url);
            if let LineKind::Playlist = kind {
                proof {
                    lemma_no_marks(upstream@);
                    if no_marks(upstream@) {
                        unmarked_is_before_mark(upstream@);
                    }
                }
                return keep_line(&upstream);
            }
            let file = extract_last_path_segment(&upstream);
            proof {
                segment_lines_stay(prefix@, file@);
            }
            keep_own_line(&line_for_segment(prefix, &file), prefix)
        },
        Err(_) => keep_line(line),
    }
}

/// The lines of a playlist, each rewritten.
pub open spec fn each_rewritten(
    lines: Seq<Seq<char>>,
    upstream_url: Seq<char>,
    prefix: Seq<char>,
) -> Seq<Seq<char>> {
    lines.map_values(|line: Seq<char>| rewritten_line(line, upstream_url, prefix))
}

/// Some lines, each ended by a line feed.
pub open spec fn joined_lines(lines: Seq<Seq<char>>) -> Seq<char>
    decreases lines.len(),
{
    if lines.len() == 0 {
        Seq::empty()
    } else {
        joined_lines(lines.drop_last()) + lines.last() + "\n"@
    }
}

/// The rewritten playlist.
pub open spec fn rewritten(
    body: Seq<char>,
    upstream_url: Seq<char>,
    convert_id: Seq<char>,
    public_base: Option<Seq<char>>,
) -> Seq<char> {
    joined_lines(
        each_rewritten(lines(body), upstream_url, segment_prefix(convert_id, public_base)),
    )
}

proof fn lemma_line_feed_in_front(p: Seq<char>, q: Seq<char>, from: int)
    requires
        0 <= from < p.len(),
        p.last() == '\n',
    ensures
        from <= next_line_feed(p, from) < p.len(),
        next_line_feed(p + q, from) == next_line_feed(p, from),
    decreases p.len() - from,
{
    assert((p + q)[from] == p[from]);
    if p[from] != '\n' {
        lemma_line_feed_in_front(p, q, from + 1);
    }
}

proof fn lemma_lines_of_front(p: Seq<char>, q: Seq<char>, from: int)
    requires
        0 <= from <= p.len(),
        p.len() > 0 ==> p.last() == '\n',
    ensures
        lines_from(p + q, from) == lines_from(p, from) + lines_from(p + q, p.len() as int),
    decreases p.len() - from,
{
    if from == p.len() {
        assert(lines_from(p, from) == Seq::<Seq<char>>::empty());
    } else {
        lemma_line_feed_in_front(p, q, from);
        let end = next_line_feed(p, from);
        lemma_lines_of_front(p, q, end + 1);
        assert((p + q).subrange(from, end) == p.subrange(from, end));
    }
}

proof fn lemma_no_feed_before(s: Seq<char>, from: int, end: int)
    requires
        0 <= from <= end < s.len(),
        s[end] == '\n',
        forall|i: int| from <= i < end ==> #[trigger] s[i] != '\n',
    ensures
        next_line_feed(s, from) == end,
    decreases end - from,
{
    if from < end {
        lemma_no_feed_before(s, from + 1, end);
    }
}

/// Joining single lines and splitting the text again gives the lines back.
pub proof fn joined_lines_split(ls: Seq<Seq<char>>)
    requires
        forall|i: int| 0 <= i < ls.len() ==> no_breaks(#[trigger] ls[i]),
    ensures
        lines(joined_lines(ls)) == ls,
        ls.len() > 0 ==> joined_lines(ls).len() > 0 && joined_lines(ls).last() == '\n',
    decreases ls.len(),
{
    reveal_strlit("\n");
    if ls.len() > 0 {
        let front = ls.drop_last();
        assert forall|i: int| 0 <= i < front.len() implies no_breaks(#[trigger] front[i]) by {
            assert(front[i] == ls[i]);
        }
        joined_lines_split(front);
        let p = joined_lines(front);
        let e = ls.last();
        assert(no_breaks(ls[ls.len() - 1]));
        let q = e + "\n"@;
        let s = p + q;
        assert(joined_lines(ls) == s);
        assert(p.len() > 0 ==> front.len() > 0);
        lemma_lines_of_front(p, q, 0);
        let k = p.len() as int;
        let end = k + e.len();
        assert(s[end] == '\n');
        assert forall|i: int| k <= i < end implies #[trigger] s[i] != '\n' by {
            assert(s[i] == e[i - k]);
            assert(!is_break(e[i - k]));
        }
        lemma_no_feed_before(s, k, end);
        assert(s.subrange(k, end) == e);
        if e.len() > 0 {
            assert(!is_break(e[e.len() - 1]));
        }
        assert(lines_from(s, end + 1) == Seq::<Seq<char>>::empty());
        assert(lines_from(s, k) == seq![e]);
        assert(front + seq![e] == ls);
    } else {
        assert(lines(joined_lines(ls)) == ls);
    }
}

/// A line of a text holds no line feed.
proof fn lemma_lines_have_no_feed(s: Seq<char>, from: int, i: int)
    requires
        0 <= from,
        0 <= i < lines_from(s, from).len(),
    ensures
        forall|j: int|
            0 <= j < lines_from(s, from)[i].len() ==> #[trigger] lines_from(s, from)[i][j] != '\n',
    decreases s.len() - from,
{
    if from < s.len() {
        lemma_before_feed(s, from);
        let end = next_line_feed(s, from);
        if end >= s.len() {
            assert(lines_from(s, from)[0] == s.skip(from));
        } else {
            let first = without_return(s.subrange(from, end));
            let rest = lines_from(s, end + 1);
            assert(lines_from(s, from) == seq![first] + rest);
            if i > 0 {
                lemma_lines_have_no_feed(s, end + 1, i - 1);
                assert(lines_from(s, from)[i] == rest[i - 1]);
            } else {
                assert(forall|j: int| 0 <= j < first.len() ==> #[trigger] first[j] == s[from + j]);
            }
        }
    }
}

proof fn lemma_before_feed(s: Seq<char>, from: int)
    requires
        0 <= from <= s.len(),
    ensures
        from <= next_line_feed(s, from) <= s.len(),
        forall|j: int| from <= j < next_line_feed(s, from) ==> #[trigger] s[j] != '\n',
    decreases s.len() - from,
{
    if from < s.len() && s[from] != '\n' {
        lemma_before_feed(s, from + 1);
    }
}

/// Whether a text has no carriage return but those that end its lines.
pub open spec fn no_bare_returns(text: Seq<char>) -> bool {
    forall|i: int| 0 <= i < lines(text).len() ==> !(#[trigger] lines(text)[i]).contains('\r')
}

proof fn lemma_lines_are_single(text: Seq<char>, i: int)
    requires
        no_bare_returns(text),
        0 <= i < lines(text).len(),
    ensures
        no_breaks(lines(text)[i]),
{
    let line = lines(text)[i];
    lemma_lines_have_no_feed(text, 0, i);
    assert(!line.contains('\r'));
    assert forall|j: int| 0 <= j < line.len() implies !is_break(#[trigger] line[j]) by {
        assert(line.contains(line[j]));
    }
}

/// Rewrites a playlist, line by line. Where the prefix has no marks, no line
/// that is written carries a token. Where neither the prefix nor a line of the
/// playlist has a bare break, the lines that are written are those that a
/// player reads.
pub fn rewrite_playlist(
    body: &str,
    upstream_url: &str,
    convert_id: &str,
    public_base: Option<&str>,
) -> (r: String)
    ensures
        r@ == rewritten(body@, upstream_url@, convert_id@, opt_str(public_base)),
        ({
            let prefix = segment_prefix(convert_id@, opt_str(public_base));
            let written = each_rewritten(lines(body@), upstream_url@, prefix);
            &&& no_marks(prefix) ==> forall|i: int|
                0 <= i < written.len() ==> carries_no_token(#[trigger] written[i])
            &&& no_breaks(prefix) && no_bare_returns(body@) ==> lines(r@) == written
            &&& no_marks(prefix) && no_breaks(prefix) && no_bare_returns(body@) ==> forall|i: int|
                0 <= i < lines(r@).len() ==> carries_no_token(#[trigger] lines(r@)[i])
        }),
{
    let prefix = build_segment_prefix(convert_id, public_base);
    let all = split_lines(body);
    let n: usize = all.len();
    let mut out = String::new();
    let mut i: usize = 0;
    let ghost ls = lines(body@);
    let ghost done = each_rewritten(ls, upstream_url@, prefix@);
    let ghost single = no_breaks(prefix@) && no_bare_returns(body@);
    proof {
        assert(done.take(0) == Seq::<Seq<char>>::empty());
        assert(out@ == Seq::<char>::empty());
    }
    while i < n
        invariant
            i <= n,
            n == all@.len(),
            ls == lines(body@),
            texts(all@) == ls,
            done == each_rewritten(ls, upstream_url@, prefix@),
            single == (no_breaks(prefix@) && no_bare_returns(body@)),
            out@ == joined_lines(done.take(i as int)),
            no_marks(prefix@) ==> forall|j: int|
                0 <= j < i ==> carries_no_token(#[trigger] done[j]),
            single ==> forall|j: int| 0 <= j < i ==> no_breaks(#[trigger] done[j]),
        decreases n - i,
    {
        let line: &str = &all[i];
        let target = rewrite_line(line, upstream_url, &prefix);
        out.append(&target);
        out.append("\n");
        proof {
            assert(ls[i as int] == all@[i as int]@);
            if single {
                lemma_lines_are_single(body@, i as int);
            }
            assert(done[i as int] == target@);
            assert(done.take(i + 1).drop_last() == done.take(i as int));
            assert(done.take(i + 1).last() == target@);
        }
        i = i + 1;
    }
    proof {
        assert(done.take(n as int) == done);
        if single {
            joined_lines_split(done);
        }
    }
    out
}

// ---------------------------------------------------------------------------
// Laws
// ---------------------------------------------------------------------------

/// A line that names a segment keeps nothing of the upstream but the encoded
/// name of the file: after the prefix and a slash stand letters, digits and
/// percent signs alone.
pub proof fn segments_are_local(
    line: Seq<char>,
    upstream_url: Seq<char>,
    prefix: Seq<char>,
    i: int,
)
    requires
        line_kind(line) == LineKind::Segment,
        resolved(upstream_url, trimmed_start(line)) is Some,
        prefix.len() < i < rewritten_line(line, upstream_url, prefix).len(),
    ensures
        begins(rewritten_line(line, upstream_url, prefix), prefix + "/"@),
        is_encoded_char(rewritten_line(line, upstream_url, prefix)[i]),
{
    let url = resolved(upstream_url, trimmed_start(line)).unwrap();
    let name = file_of(stripped(url));
    let out = rewritten_line(line, upstream_url, prefix);
    reveal_strlit("/");
    assert(out.take((prefix + "/"@).len() as int) == prefix + "/"@);
    encoded_values_are_plain(name, i - prefix.len() - 1);
}

/// A blank line is copied, and so is a line that names no URL and carries no
/// token.
pub proof fn other_lines_are_copied(line: Seq<char>, upstream_url: Seq<char>, prefix: Seq<char>)
    requires
        line_kind(line) == LineKind::Blank || (line_kind(line) != LineKind::Tag && resolved(
            upstream_url,
            trimmed_start(line),
        ) is None && (carries_no_token(line) || no_marks(line))),
    ensures
        rewritten_line(line, upstream_url, prefix) == line,
{
    if no_marks(line) {
        unmarked_is_before_mark(line);
    }
}

/// Whether a tag, read as text and value by value, has no token to take out.
pub open spec fn values_stay(tag: Seq<char>, upstream_url: Seq<char>) -> bool {
    forall|i: int|
        0 <= i < uri_values(tag).len() ==> !value_carries_token(
            #[trigger] uri_values(tag)[i],
            upstream_url,
        )
}

proof fn lemma_mentions_in_parts(a: Seq<char>, b: Seq<char>, c: Seq<char>)
    requires
        !mentions_token(a + b + c),
    ensures
        !mentions_token(a),
        !mentions_token(c),
{
    parts_mention_none(a + b, c);
    parts_mention_none(a, b);
}

proof fn lemma_tag_stays(tag: Seq<char>, upstream_url: Seq<char>, prefix: Seq<char>)
    requires
        !mentions_token(tag),
        values_stay(tag, upstream_url),
    ensures
        routed_tag(tag, upstream_url, prefix) == tag,
    decreases tag.len(),
{
    lemma_around_uri(tag);
    if let Some(parts) = around_uri(tag) {
        let all = uri_values(tag);
        let later = uri_values(parts.2);
        assert(all == seq![parts.1] + later);
        assert(all[0] == parts.1);
        assert forall|i: int| 0 <= i < later.len() implies !value_carries_token(
            #[trigger] later[i],
            upstream_url,
        ) by {
            assert(all[i + 1] == later[i]);
        }
        lemma_mentions_in_parts(parts.0, parts.1, parts.2);
        lemma_tag_stays(parts.2, upstream_url, prefix);
    }
}

/// A tag or a comment is copied, unless it carries a token: in its text, or in
/// one of its `URI` values, as it stands or as it is resolved.
pub proof fn other_tags_are_copied(line: Seq<char>, upstream_url: Seq<char>, prefix: Seq<char>)
    requires
        line_kind(line) == LineKind::Tag,
        !mentions_token(line),
        values_stay(line, upstream_url),
        values_are_token_free(line) || no_marks(line) || !no_marks(prefix),
    ensures
        rewritten_line(line, upstream_url, prefix) == line,
{
    lemma_tag_stays(line, upstream_url, prefix);
    if no_marks(line) {
        unmarked_is_before_mark(line);
    }
}

proof fn lemma_kept_mentions_none(line: Seq<char>)
    ensures
        !mentions_token(kept(line)),
{
    before_mark_is_unmarked(line);
    unmarked_is_before_mark(before_mark(line));
}

proof fn lemma_first_char_stays(tag: Seq<char>, upstream_url: Seq<char>, prefix: Seq<char>)
    requires
        tag.len() > 0,
        tag[0] != '?',
        tag[0] != '&',
    ensures
        routed_tag(tag, upstream_url, prefix).len() > 0,
        routed_tag(tag, upstream_url, prefix)[0] == tag[0],
{
    lemma_uri_start(tag, 0);
    if let Some(parts) = around_uri(tag) {
        assert(parts.0[0] == tag[0]);
    }
}

proof fn lemma_quote_before_value(tag: Seq<char>, from: int)
    requires
        0 <= from,
    ensures
        uri_start(tag, from) matches Some(at) ==> 0 < at <= tag.len() && tag[at - 1] == '"',
    decreases tag.len() - from,
{
    reveal_strlit("URI=\"");
    if from < tag.len() {
        if begins(tag.skip(from), "URI=\""@) {
            assert(tag.skip(from).take(5)[4] == tag[from + 4]);
        } else {
            lemma_quote_before_value(tag, from + 1);
        }
    }
}

proof fn lemma_quote_after_value(s: Seq<char>, from: int)
    requires
        0 <= from <= s.len(),
    ensures
        next_quote(s, from) < s.len() ==> s[next_quote(s, from)] == '"',
    decreases s.len() - from,
{
    if from < s.len() && s[from] != '"' {
        lemma_quote_after_value(s, from + 1);
    }
}

proof fn lemma_tag_mentions_none(tag: Seq<char>, upstream_url: Seq<char>, prefix: Seq<char>)
    requires
        !mentions_token(prefix),
    ensures
        !mentions_token(routed_tag(tag, upstream_url, prefix)),
    decreases tag.len(),
{
    lemma_around_uri(tag);
    match around_uri(tag) {
        Some(parts) => {
            if mentions_token(parts.0) {
                before_mark_is_unmarked(parts.0);
                unmarked_is_before_mark(before_mark(parts.0));
            } else {
                let value = routed_value(parts.1, upstream_url, prefix);
                let rest = routed_tag(parts.2, upstream_url, prefix);
                lemma_tag_mentions_none(parts.2, upstream_url, prefix);
                if value_carries_token(parts.1, upstream_url) {
                    match resolved(upstream_url, trimmed_start(parts.1)) {
                        Some(url) => {
                            lemma_kept_mentions_none(stripped(url));
                            segment_lines_stay(prefix, file_of(stripped(url)));
                        },
                        None => {
                            before_mark_is_unmarked(parts.1);
                            unmarked_is_before_mark(before_mark(parts.1));
                        },
                    }
                }
                lemma_quote_before_value(tag, 0);
                lemma_uri_start(tag, 0);
                let at = uri_start(tag, 0).unwrap();
                lemma_next_quote(tag, at);
                lemma_quote_after_value(tag, at);
                assert(parts.0.last() == '"');
                joined_texts_mention_none(parts.0, value);
                if parts.2.len() > 0 {
                    assert(parts.2[0] == '"');
                    lemma_first_char_stays(parts.2, upstream_url, prefix);
                    joined_texts_mention_none(parts.0 + value, rest);
                } else {
                    told_mentions_none(parts.2);
                    assert(rest.len() == 0) by {
                        before_mark_is_unmarked(parts.2);
                    }
                    joined_texts_mention_none(parts.0 + value, rest);
                }
            }
        },
        None => {
            told_mentions_none(tag);
        },
    }
}

/// Where no token stands in the prefix of this gateway, none stands in a line
/// of the rewritten playlist.
pub proof fn rewritten_lines_mention_none(
    line: Seq<char>,
    upstream_url: Seq<char>,
    prefix: Seq<char>,
)
    requires
        !mentions_token(prefix),
    ensures
        !mentions_token(rewritten_line(line, upstream_url, prefix)),
{
    lemma_kept_mentions_none(line);
    match line_kind(line) {
        LineKind::Blank => {
            lemma_blank_is_unmarked(line);
            unmarked_is_before_mark(line);
        },
        LineKind::Tag => {
            let tag = routed_tag(line, upstream_url, prefix);
            lemma_tag_mentions_none(line, upstream_url, prefix);
            lemma_kept_mentions_none(tag);
        },
        _ => {
            if let Some(url) = resolved(upstream_url, trimmed_start(line)) {
                lemma_kept_mentions_none(stripped(url));
                segment_lines_stay(prefix, file_of(stripped(url)));
            }
        },
    }
}

} // verus!
