//! What several routes share: errors, sources of media and streams.
use vstd::prelude::*;
use vstd::string::*;
use vstd::utf8::*;

pub use crate::gateway::routes::ensure::ensure_mapping;
pub use crate::info_hash::normalize_info_hash;

use crate::bindings::{
    magnet_text, parsed_url, percent_byte, percent_encode, percent_encoded,
    url_parse, UrlParts, UrlView,
};
use crate::gateway::state::{described, AppState, TorrentMapping};
use crate::info_hash::{
    case_does_not_matter, hashes_become_normal, is_base32_hash, is_hex_hash, is_normal_hash,
    lower_hashes_are_hashes, names_info_hash, normalized_hash,
};
use crate::json::{json_object, json_text, no_members, push_member, JsonView};
use crate::response::{
    json_reply, json_response, Response, ResponseView, BAD_GATEWAY, BAD_REQUEST, NOT_FOUND,
    PAYMENT_REQUIRED, UNAUTHORIZED,
};
use crate::text::{
    begins, lower, number_within, opt_text, parse_i64, same_text, strip_prefix, texts, to_lower,
    trimmed,
};
use crate::torbox::{
    torbox_message, CreateStreamOptions, StreamData, StreamKind, TorboxError, TorboxErrorView,
};

verus! {

// ---------------------------------------------------------------------------
// Errors
// ---------------------------------------------------------------------------

/// The reply to a request that failed: the status, and a document that says
/// why.
pub open spec fn error_response(status: u16, message: Seq<char>) -> ResponseView {
    json_response(status, JsonView::Object(seq![("error"@, JsonView::Str(message))]))
}

/// Answers that a request failed.
pub fn err_response(status: u16, message: &str) -> (r: Response)
    ensures
        r@ == error_response(status, message@),
{
    let mut members = no_members();
    push_member(&mut members, "error", json_text(message));
    let document = json_object(members);
    proof {
        assert(document@->Object_0 == seq![("error"@, JsonView::Str(message@))]);
    }
    json_reply(status, document)
}

/// The status that an error of the upstream is answered with.
pub open spec fn torbox_status(e: TorboxErrorView) -> u16 {
    match e {
        TorboxErrorView::Api { code, .. } => if code == "NO_AUTH"@ || code == "BAD_TOKEN"@ {
            UNAUTHORIZED
        } else if code == "PLAN_RESTRICTED_FEATURE"@ {
            PAYMENT_REQUIRED
        } else if code == "ITEM_NOT_FOUND"@ {
            NOT_FOUND
        } else {
            BAD_GATEWAY
        },
        _ => BAD_GATEWAY,
    }
}

/// The reply to a request whose upstream failed.
pub open spec fn torbox_response(e: TorboxErrorView) -> ResponseView {
    error_response(torbox_status(e), torbox_message(e))
}

/// Answers that the upstream failed, with its own message.
pub fn torbox_to_response(err: TorboxError) -> (r: Response)
    ensures
        r@ == torbox_response(err@),
{
    let status: u16 = match &err {
        TorboxError::Api { code, .. } => {
            if same_text(code, "NO_AUTH") || same_text(code, "BAD_TOKEN") {
                UNAUTHORIZED
            } else if same_text(code, "PLAN_RESTRICTED_FEATURE") {
                PAYMENT_REQUIRED
            } else if same_text(code, "ITEM_NOT_FOUND") {
                NOT_FOUND
            } else {
                BAD_GATEWAY
            }
        },
        _ => BAD_GATEWAY,
    };
    err_response(status, &err.message())
}

// ---------------------------------------------------------------------------
// Magnets and media URLs
// ---------------------------------------------------------------------------

/// Whether a text, with white space around it or without, is an info-hash.
pub open spec fn is_info_hash(text: Seq<char>) -> bool {
    is_hex_hash(trimmed(text)) || is_base32_hash(trimmed(text))
}

/// The info-hash that a topic names, in normal form.
pub open spec fn hash_of_topic(topic: Seq<char>) -> Option<Seq<char>> {
    if begins(topic, "urn:btih:"@) && is_info_hash(topic.skip("urn:btih:"@.len() as int)) {
        Some(normalized_hash(topic.skip("urn:btih:"@.len() as int)))
    } else {
        None
    }
}

/// Reads the info-hash that a topic names.
pub fn topic_info_hash(topic: &str) -> (r: Option<String>)
    ensures
        opt_text(r) == hash_of_topic(topic@),
        r matches Some(h) ==> is_normal_hash(h@),
{
    match strip_prefix(topic, "urn:btih:") {
        Some(hash) => {
            if names_info_hash(hash) {
                proof {
                    hashes_become_normal(hash@);
                }
                Some(normalize_info_hash(hash))
            } else {
                None
            }
        },
        None => None,
    }
}

/// The info-hash of the first topic that names one, from the pair at `from`
/// on.
pub open spec fn topic_hash(pairs: Seq<(Seq<char>, Seq<char>)>, from: int) -> Option<Seq<char>>
    decreases pairs.len() - from,
{
    if from < 0 || from >= pairs.len() {
        None
    } else if pairs[from].0 == "xt"@ && hash_of_topic(pairs[from].1) is Some {
        hash_of_topic(pairs[from].1)
    } else {
        topic_hash(pairs, from + 1)
    }
}

/// The info-hash of a magnet link.
pub open spec fn magnet_hash(url: UrlView) -> Option<Seq<char>> {
    if url.scheme == "magnet"@ {
        topic_hash(url.query_pairs, 0)
    } else {
        None
    }
}

/// The info-hash of a magnet link, in normal form; nothing where the URL is no
/// magnet link or names no info-hash.
pub fn magnet_info_hash(url: &UrlParts) -> (r: Option<String>)
    ensures
        opt_text(r) == magnet_hash(url@),
        r matches Some(h) ==> is_normal_hash(h@),
{
    if !same_text(&url.scheme, "magnet") {
        return None;
    }
    let n: usize = url.query_pairs.len();
    let mut i: usize = 0;
    while i < n
        invariant
            i <= n,
            n == url.query_pairs@.len(),
            url@.scheme == "magnet"@,
            topic_hash(url@.query_pairs, 0) == topic_hash(url@.query_pairs, i as int),
        decreases n - i,
    {
        proof {
            assert(url@.query_pairs[i as int] == (
                url.query_pairs@[i as int].0@,
                url.query_pairs@[i as int].1@,
            ));
        }
        if same_text(&url.query_pairs[i].0, "xt") {
            match topic_info_hash(&url.query_pairs[i].1) {
                Some(hash) => return Some(hash),
                None => {},
            }
        }
        i = i + 1;
    }
    None
}

/// The info-hash that a text gives as a magnet link.
pub open spec fn magnet_source(magnet: Seq<char>) -> Option<Seq<char>> {
    match parsed_url(magnet) {
        Ok(url) => magnet_hash(url),
        Err(_) => None,
    }
}

/// Reads the info-hash of a magnet link: forty small hexadecimal digits. The
/// link that [`build_magnet`] makes of a hash gives that hash back, in normal
/// form.
pub fn info_hash_from_magnet(magnet: &str) -> (r: Option<String>)
    ensures
        opt_text(r) == magnet_source(magnet@),
        r matches Some(h) ==> is_normal_hash(h@),
        forall|hash: Seq<char>|
            (is_hex_hash(hash) || is_base32_hash(hash)) && magnet@ == #[trigger] minimal_magnet(
                hash,
            ) ==> opt_text(r) == Some(normalized_hash(hash)),
{
    let parsed = url_parse(magnet);
    proof {
        assert forall|hash: Seq<char>|
            (is_hex_hash(hash) || is_base32_hash(hash)) && magnet@ == #[trigger] minimal_magnet(
                hash,
            ) implies magnet_source(magnet@) == Some(normalized_hash(hash)) by {
            let l = lower(hash);
            lower_hashes_are_hashes(hash);
            assert(magnet@ == magnet_text(l));
            let topic = "urn:btih:"@ + l;
            let pairs = parsed->Ok_0@.query_pairs;
            assert(pairs[0] == ("xt"@, topic));
            assert(topic.take("urn:btih:"@.len() as int) == "urn:btih:"@);
            assert(topic.skip("urn:btih:"@.len() as int) == l);
            case_does_not_matter(hash);
        }
    }
    match parsed {
        Ok(url) => magnet_info_hash(&url),
        Err(_) => None,
    }
}

/// The least that a magnet link to a hash holds.
pub open spec fn minimal_magnet(info_hash: Seq<char>) -> Seq<char> {
    magnet_text(lower(info_hash))
}

/// Builds a magnet link from an info-hash alone.
pub fn build_magnet(info_hash: &str) -> (r: String)
    ensures
        r@ == minimal_magnet(info_hash@),
{
    let mut out = "magnet:?xt=urn:btih:".to_owned();
    out.append(&to_lower(info_hash));
    out
}

/// What a file of a torrent is called by: the info-hash and the file's number.
pub open spec fn source_view(source: Option<(String, i64)>) -> Option<(Seq<char>, int)> {
    match source {
        Some(s) => Some((s.0@, s.1 as int)),
        None => None,
    }
}

/// The file that a URL of this server names: `<server>/<info-hash>/<number>`,
/// the hash of thirty-two bytes or more.
pub open spec fn local_target(url: UrlView) -> Option<(Seq<char>, int)> {
    match url.path_segments {
        Some(segments) => if segments.len() < 2 || encode_utf8(segments[0]).len() < 32 {
            None
        } else {
            match number_within(segments[1], true, i64::MIN as int, i64::MAX as int) {
                Some(idx) => Some((normalized_hash(segments[0]), idx)),
                None => None,
            }
        },
        None => None,
    }
}

/// Reads the file that a URL of this server names.
pub fn local_media_target(url: &UrlParts) -> (r: Option<(String, i64)>)
    ensures
        source_view(r) == local_target(url@),
{
    match &url.path_segments {
        Some(segments) => {
            if segments.len() < 2 {
                return None;
            }
            proof {
                assert(texts(segments@)[0] == segments@[0]@);
                assert(texts(segments@)[1] == segments@[1]@);
            }
            let info_hash: &str = &segments[0];
            let len: usize = info_hash.as_bytes().len();
            if len < 32 {
                return None;
            }
            match parse_i64(&segments[1]) {
                Some(idx) => Some((normalize_info_hash(info_hash), idx)),
                None => None,
            }
        },
        None => None,
    }
}

/// The file that a text names as a URL of this server.
pub open spec fn local_source(url: Seq<char>) -> Option<(Seq<char>, int)> {
    match parsed_url(url) {
        Ok(parts) => local_target(parts),
        Err(_) => None,
    }
}

/// Reads the file that a media URL names, where it points back at this server.
pub fn parse_local_media_url(url: &str) -> (r: Option<(String, i64)>)
    ensures
        source_view(r) == local_source(url@),
{
    match url_parse(url) {
        Ok(parts) => local_media_target(&parts),
        Err(_) => None,
    }
}

/// What a media URL names: a file by way of this server, or the first file of
/// a magnet link.
pub open spec fn media_target(url: UrlView) -> Option<(Seq<char>, int)> {
    match local_target(url) {
        Some(target) => Some(target),
        None => match magnet_hash(url) {
            Some(hash) => Some((hash, 0)),
            None => None,
        },
    }
}

/// What a text names as a media URL.
pub open spec fn media_source(media_url: Seq<char>) -> Option<(Seq<char>, int)> {
    match parsed_url(media_url) {
        Ok(url) => media_target(url),
        Err(_) => None,
    }
}

/// Reads what a media URL names.
pub fn resolve_media_url(media_url: &str) -> (r: Option<(String, i64)>)
    ensures
        source_view(r) == media_source(media_url@),
{
    match parse_local_media_url(media_url) {
        Some(source) => Some(source),
        None => match info_hash_from_magnet(media_url) {
            Some(hash) => Some((hash, 0)),
            None => None,
        },
    }
}

/// What becomes of a request by a media URL, given what the URL names. The
/// hint is added to the reason of a refusal.
pub open spec fn source_outcome(
    media_url: Seq<char>,
    source: Option<(Seq<char>, int)>,
    hint: Seq<char>,
) -> Result<(Seq<char>, int), ResponseView> {
    match source {
        Some(target) => Ok(target),
        None => Err(
            error_response(
                BAD_REQUEST,
                "Could not derive a Torbox source from mediaURL="@ + media_url + hint,
            ),
        ),
    }
}

/// What an outcome of [`require_source`] stands for.
pub open spec fn source_result(r: Result<(String, i64), Response>) -> Result<
    (Seq<char>, int),
    ResponseView,
> {
    match r {
        Ok(source) => Ok((source.0@, source.1 as int)),
        Err(reply) => Err(reply@),
    }
}

/// Refuses a media URL that names no file.
pub fn require_source(media_url: &str, source: Option<(String, i64)>, hint: &str) -> (r: Result<
    (String, i64),
    Response,
>)
    ensures
        source_result(r) == source_outcome(media_url@, source_view(source), hint@),
{
    match source {
        Some(target) => Ok(target),
        None => {
            let mut message = "Could not derive a Torbox source from mediaURL=".to_owned();
            message.append(media_url);
            message.append(hint);
            Err(err_response(BAD_REQUEST, &message))
        },
    }
}

/// What becomes of a request by a media URL, which may be missing.
pub open spec fn media_request(media_url: Option<Seq<char>>, hint: Seq<char>) -> Result<
    (Seq<char>, int),
    ResponseView,
> {
    match media_url {
        Some(url) => if url.len() == 0 {
            Err(error_response(BAD_REQUEST, "missing mediaURL"@))
        } else {
            source_outcome(url, media_source(url), hint)
        },
        None => Err(error_response(BAD_REQUEST, "missing mediaURL"@)),
    }
}

/// Reads the file that a request names by its media URL.
pub fn request_media(media_url: &Option<String>, hint: &str) -> (r: Result<
    (String, i64),
    Response,
>)
    ensures
        source_result(r) == media_request(opt_text(*media_url), hint@),
{
    match media_url {
        Some(url) => {
            let url: &str = url;
            if url.is_empty() {
                return Err(err_response(BAD_REQUEST, "missing mediaURL"));
            }
            require_source(url, resolve_media_url(url), hint)
        },
        None => Err(err_response(BAD_REQUEST, "missing mediaURL")),
    }
}

// ---------------------------------------------------------------------------
// Query values
// ---------------------------------------------------------------------------

/// The percent-encoding of a text, in which only ASCII letters and digits
/// stand for themselves.
pub open spec fn url_encoded(value: Seq<char>) -> Seq<char> {
    percent_encoded(encode_utf8(value))
}

/// Percent-encodes a value for a query or a path.
pub fn url_encode(value: &str) -> (r: String)
    ensures
        r@ == url_encoded(value@),
{
    percent_encode(value)
}

/// Whether a character is an ASCII letter, a digit or a percent sign.
pub open spec fn is_encoded_char(c: char) -> bool {
    '0' <= c <= '9' || 'A' <= c <= 'Z' || 'a' <= c <= 'z' || c == '%'
}

proof fn lemma_percent_encoded(bytes: Seq<u8>)
    ensures
        forall|i: int|
            0 <= i < percent_encoded(bytes).len() ==> is_encoded_char(
                #[trigger] percent_encoded(bytes)[i],
            ),
    decreases bytes.len(),
{
    if bytes.len() > 0 {
        lemma_percent_encoded(bytes.drop_last());
        let head = percent_encoded(bytes.drop_last());
        let tail = percent_byte(bytes.last());
        assert forall|i: int| 0 <= i < (head + tail).len() implies is_encoded_char(
            #[trigger] (head + tail)[i],
        ) by {
            if i >= head.len() {
                assert((head + tail)[i] == tail[i - head.len()]);
            } else {
                assert((head + tail)[i] == head[i]);
            }
        }
    }
}

/// An encoded value holds letters, digits and percent signs alone, so it is
/// one segment of a path and carries no query.
pub proof fn encoded_values_are_plain(value: Seq<char>, i: int)
    requires
        0 <= i < url_encoded(value).len(),
    ensures
        is_encoded_char(url_encoded(value)[i]),
{
    lemma_percent_encoded(encode_utf8(value));
}

/// The number that a hexadecimal digit stands for.
pub open spec fn hex_digit_value(c: char) -> int {
    if '0' <= c <= '9' {
        c as int - 48
    } else {
        c as int - 55
    }
}

/// The bytes that an encoded value stands for: a percent sign and two capital
/// hexadecimal digits are one byte, every other character is the byte of its
/// number.
pub open spec fn percent_decoded(s: Seq<char>) -> Seq<u8>
    decreases s.len(),
{
    if s.len() == 0 {
        Seq::empty()
    } else if s[0] == '%' && s.len() >= 3 {
        seq![(hex_digit_value(s[1]) * 16 + hex_digit_value(s[2])) as u8] + percent_decoded(s.skip(3))
    } else {
        seq![s[0] as u8] + percent_decoded(s.skip(1))
    }
}

proof fn lemma_encoded_front(bytes: Seq<u8>)
    requires
        bytes.len() > 0,
    ensures
        percent_encoded(bytes) == percent_byte(bytes[0]) + percent_encoded(bytes.skip(1)),
    decreases bytes.len(),
{
    let rest = bytes.skip(1);
    if rest.len() == 0 {
        assert(bytes.drop_last() == rest);
        assert(percent_encoded(rest) == Seq::<char>::empty());
        assert(percent_encoded(bytes) == percent_byte(bytes[0]) + percent_encoded(rest));
    } else {
        lemma_encoded_front(bytes.drop_last());
        assert(bytes.drop_last().skip(1) == rest.drop_last());
        assert(bytes.last() == rest.last());
        assert(percent_encoded(bytes) == percent_byte(bytes[0]) + percent_encoded(rest));
    }
}

proof fn lemma_decoded_byte(b: u8, tail: Seq<char>)
    ensures
        percent_decoded(percent_byte(b) + tail) == seq![b] + percent_decoded(tail),
{
    let s = percent_byte(b) + tail;
    if percent_byte(b).len() == 1 {
        assert(s.skip(1) == tail);
        assert(s[0] == b as char && s[0] != '%');
    } else {
        assert(s.skip(3) == tail);
        assert(hex_digit_value(s[1]) == b / 16);
        assert(hex_digit_value(s[2]) == b % 16);
    }
}

proof fn lemma_decode_encoded(bytes: Seq<u8>)
    ensures
        percent_decoded(percent_encoded(bytes)) == bytes,
    decreases bytes.len(),
{
    if bytes.len() > 0 {
        lemma_encoded_front(bytes);
        lemma_decoded_byte(bytes[0], percent_encoded(bytes.skip(1)));
        lemma_decode_encoded(bytes.skip(1));
        assert(seq![bytes[0]] + bytes.skip(1) == bytes);
    } else {
        assert(percent_encoded(bytes) == Seq::<char>::empty());
    }
}

/// Decoding an encoded value gives the value back, so different values have
/// different encodings.
pub proof fn encoded_values_decode(a: Seq<char>, b: Seq<char>)
    ensures
        percent_decoded(url_encoded(a)) == encode_utf8(a),
        url_encoded(a) == url_encoded(b) ==> a == b,
{
    lemma_decode_encoded(encode_utf8(a));
    lemma_decode_encoded(encode_utf8(b));
    encode_utf8_decode_utf8(a);
    encode_utf8_decode_utf8(b);
}

// ---------------------------------------------------------------------------
// Streams
// ---------------------------------------------------------------------------

/// What to ask for the stream of a torrent's file.
pub fn create_stream_for(
    mapping: &TorrentMapping,
    audio_index: Option<u32>,
    subtitle_index: Option<u32>,
    resolution_index: Option<u32>,
) -> (r: CreateStreamOptions)
    ensures
        r == (CreateStreamOptions {
            id: mapping.torrent_id,
            file_id: mapping.file_id,
            kind: StreamKind::Torrent,
            audio_index,
            subtitle_index,
            resolution_index,
        }),
{
    CreateStreamOptions {
        id: mapping.torrent_id,
        file_id: mapping.file_id,
        kind: StreamKind::Torrent,
        audio_index,
        subtitle_index,
        resolution_index,
    }
}

/// Takes note of the stream that was asked for: its description is kept, or
/// the request is answered with the error.
pub fn stream_created(
    state: &mut AppState,
    info_hash: &str,
    outcome: Result<StreamData, TorboxError>,
    now: u64,
) -> (r: Option<Response>)
    ensures
        match outcome {
            Ok(stream) => r is None && final(state).mappings@ == described(
                old(state).mappings@,
                info_hash@,
                stream,
                now,
            ),
            Err(e) => (r matches Some(reply) && reply@ == torbox_response(e@))
                && final(state).mappings@ == old(state).mappings@,
        },
        final(state).torbox == old(state).torbox,
        final(state).cfg == old(state).cfg,
{
    match outcome {
        Ok(stream) => {
            state.update_stream(info_hash, stream, now);
            None
        },
        Err(e) => Some(torbox_to_response(e)),
    }
}

} // verus!
