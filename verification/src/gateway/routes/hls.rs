//! HLS routes.
//!
//! A player asks for `/hlsv2/{convertId}/master.m3u8?mediaURL=...` and then
//! for the segments that the playlist names. The query of the playlist request
//! says which stream is meant; the segment requests carry none, so what a
//! `convertId` stands for is kept in a [`ConvertCache`].
use vstd::prelude::*;
use vstd::string::*;
use vstd::utf8::*;

use crate::bindings::{
    is_header_value, is_plain_name, is_web, joined_url, parsed_url, reads_as_itself, text_result,
};
use crate::gateway::routes::helpers::{
    encoded_values_decode, err_response, error_response, media_request, percent_decoded,
    request_media, url_encoded,
};
use crate::gateway::routes::playlist::{
    carries_no_token, join_segment_url, names_beside, no_bare_returns, plain_names_resolve,
    resolved, rewrite_playlist, rewritten, rewritten_line, segment_line, segment_prefix,
    segment_url,
};
use crate::gateway::routes::token::{
    hide_mention, mentions_token, no_marks, strip_token, stripped, told, token_free,
};
use crate::json::Double;
use crate::response::{
    playlist_reply, playlist_response, redirect, redirect_response, BodyView, Response,
    ResponseView, BAD_GATEWAY, FOUND, GATEWAY_TIMEOUT, NOT_FOUND, SERVICE_UNAVAILABLE,
};
use crate::table::Table;
use crate::text::{
    copy_opt, decimal, ends, ends_with, lines, no_breaks, number_within, opt_str, opt_text, parse_u32,
    show_u64,
};
use crate::torbox::StreamData;

verus! {

/// The query of a playlist request.
#[derive(Debug)]
pub struct HlsQuery {
    pub media_url: Option<String>,
    pub audio: Option<String>,
    pub subtitle: Option<String>,
    pub video: Option<String>,
    pub video_codecs: Option<String>,
    pub audio_codecs: Option<String>,
    pub container_codec: Option<String>,
    pub duration: Option<Double>,
    /// Some clients send the number of the audio track directly.
    pub audio_index: Option<u32>,
    /// Some clients send the number of the subtitle track directly.
    pub subtitle_index: Option<u32>,
}

impl Default for HlsQuery {
    fn default() -> (r: Self)
        ensures
            r == (HlsQuery {
                media_url: None,
                audio: None,
                subtitle: None,
                video: None,
                video_codecs: None,
                audio_codecs: None,
                container_codec: None,
                duration: None,
                audio_index: None,
                subtitle_index: None,
            }),
    {
        HlsQuery {
            media_url: None,
            audio: None,
            subtitle: None,
            video: None,
            video_codecs: None,
            audio_codecs: None,
            container_codec: None,
            duration: None,
            audio_index: None,
            subtitle_index: None,
        }
    }
}

// ---------------------------------------------------------------------------
// What a convertId stands for
// ---------------------------------------------------------------------------

/// How long an entry may go unused, in milliseconds.
pub const CONVERT_TTL: u64 = 3_600_000;

/// What a `convertId` stands for.
#[derive(Debug)]
pub struct ConvertEntry {
    pub info_hash: String,
    pub stream: StreamData,
    /// When the entry was last used, in milliseconds of the gateway's clock.
    pub last_used: u64,
}

/// What each `convertId` stands for.
pub type Converts = Map<Seq<char>, ConvertEntry>;

/// The memory of what each `convertId` stands for.
pub struct ConvertCache {
    pub entries: Table<ConvertEntry>,
}

/// Whether an entry was used lately.
pub open spec fn fresh(entry: ConvertEntry, now: u64) -> bool {
    now - entry.last_used < CONVERT_TTL
}

/// The entries that were used lately.
pub open spec fn fresh_entries(map: Converts, now: u64) -> Converts {
    Map::new(
        |id: Seq<char>| map.contains_key(id) && fresh(map[id], now),
        |id: Seq<char>| map[id],
    )
}

/// The memory after an entry was filed: stale entries are gone.
pub open spec fn filed(map: Converts, id: Seq<char>, entry: ConvertEntry) -> Converts {
    fresh_entries(map, entry.last_used).insert(id, entry)
}

/// What a `convertId` stands for.
pub open spec fn entry_of(map: Converts, id: Seq<char>) -> Option<ConvertEntry> {
    if map.contains_key(id) {
        Some(map[id])
    } else {
        None
    }
}

/// The memory after an entry was used; nothing changes for an unknown
/// `convertId`.
pub open spec fn touched(map: Converts, id: Seq<char>, now: u64) -> Converts {
    if map.contains_key(id) {
        map.insert(id, ConvertEntry { last_used: now, ..map[id] })
    } else {
        map
    }
}

impl ConvertCache {
    /// An empty memory.
    pub fn new() -> (r: Self)
        ensures
            r.entries@ == Converts::empty(),
    {
        ConvertCache { entries: Table::new() }
    }

    /// Drops the entries that were not used lately.
    fn drop_stale(&mut self, now: u64)
        ensures
            final(self).entries@ == fresh_entries(old(self).entries@, now),
    {
        let ghost all = self.entries@;
        let mut rest: Table<ConvertEntry> = Table::new();
        std::mem::swap(&mut rest, &mut self.entries);
        let mut kept: Table<ConvertEntry> = Table::new();
        proof {
            assert(kept@ =~= fresh_entries(Converts::empty(), now));
        }
        loop
            invariant
                forall|id: Seq<char>| #[trigger]
                    rest@.contains_key(id) ==> all.contains_key(id) && rest@[id] == all[id],
                forall|id: Seq<char>| #[trigger]
                    kept@.contains_key(id) <==> all.contains_key(id) && !rest@.contains_key(id)
                        && fresh(all[id], now),
                forall|id: Seq<char>| #[trigger]
                    kept@.contains_key(id) ==> kept@[id] == all[id],
            ensures
                kept@ =~= fresh_entries(all, now),
            decreases rest.count(),
        {
            match rest.pop() {
                Some((id, entry)) => {
                    if now < entry.last_used || now - entry.last_used < CONVERT_TTL {
                        kept.insert(id, entry);
                    }
                },
                None => {
                    break;
                },
            }
        }
        self.entries = kept;
    }

    /// Files what a `convertId` stands for, and drops what was not used
    /// lately.
    pub fn put_convert(&mut self, convert_id: &str, info_hash: String, stream: StreamData, now: u64)
        ensures
            final(self).entries@ == filed(
                old(self).entries@,
                convert_id@,
                ConvertEntry { info_hash, stream, last_used: now },
            ),
    {
        self.drop_stale(now);
        self.entries.insert(
            convert_id.to_owned(),
            ConvertEntry { info_hash, stream, last_used: now },
        );
    }

    /// Looks up what a `convertId` stands for, and takes note of the use.
    pub fn get_convert(&mut self, convert_id: &str, now: u64) -> (r: Option<&ConvertEntry>)
        ensures
            final(self).entries@ == touched(old(self).entries@, convert_id@, now),
            r is Some <==> old(self).entries@.contains_key(convert_id@),
            r matches Some(entry) ==> *entry == touched(
                old(self).entries@,
                convert_id@,
                now,
            )[convert_id@],
    {
        let ghost before = self.entries@;
        match self.entries.remove(convert_id) {
            Some(entry) => {
                let used = ConvertEntry {
                    info_hash: entry.info_hash,
                    stream: entry.stream,
                    last_used: now,
                };
                self.entries.insert(convert_id.to_owned(), used);
                proof {
                    assert(before.remove(convert_id@).insert(convert_id@, used) =~= before.insert(
                        convert_id@,
                        used,
                    ));
                }
            },
            None => {
                proof {
                    assert(before.remove(convert_id@) =~= before);
                }
            },
        }
        self.entries.get(convert_id)
    }
}

// ---------------------------------------------------------------------------
// Dispatch
// ---------------------------------------------------------------------------

/// Whether a file of a conversion is a playlist; every other file is a
/// segment.
pub fn is_playlist_name(filename: &str) -> (r: bool)
    ensures
        r == ends(filename@, ".m3u8"@),
{
    ends_with(filename, ".m3u8")
}

// ---------------------------------------------------------------------------
// Playlists
// ---------------------------------------------------------------------------

/// The track that a request names: by its number, or by a text that is one.
pub open spec fn wanted_track(index: Option<u32>, text: Option<Seq<char>>) -> Option<int> {
    match index {
        Some(n) => Some(n as int),
        None => match text {
            Some(s) => number_within(s, false, 0, u32::MAX as int),
            None => None,
        },
    }
}

/// A choice of track as a mathematical number.
pub open spec fn track_number(index: Option<u32>) -> Option<int> {
    match index {
        Some(n) => Some(n as int),
        None => None,
    }
}

/// Reads the track that a request names.
pub fn track_choice(index: Option<u32>, text: &Option<String>) -> (r: Option<u32>)
    ensures
        track_number(r) == wanted_track(index, opt_text(*text)),
{
    match index {
        Some(n) => Some(n),
        None => match text {
            Some(s) => parse_u32(s),
            None => None,
        },
    }
}

/// What a playlist request asks for.
#[derive(Debug)]
pub struct PlaylistRequest {
    pub info_hash: String,
    pub file_idx: i64,
    pub audio_index: Option<u32>,
    pub subtitle_index: Option<u32>,
}

/// Reads what a playlist request asks for.
pub fn playlist_request(query: &HlsQuery) -> (r: Result<PlaylistRequest, Response>)
    ensures
        match media_request(opt_text(query.media_url), Seq::empty()) {
            Ok(target) => r matches Ok(request) && request.info_hash@ == target.0
                && request.file_idx == target.1 && track_number(request.audio_index)
                == wanted_track(query.audio_index, opt_text(query.audio)) && track_number(
                request.subtitle_index,
            ) == wanted_track(query.subtitle_index, opt_text(query.subtitle)),
            Err(reply) => r matches Err(refusal) && refusal@ == reply,
        },
{
    proof {
        reveal_strlit("");
        assert(""@ == Seq::<char>::empty());
    }
    match request_media(&query.media_url, "") {
        Ok((info_hash, file_idx)) => Ok(
            PlaylistRequest {
                info_hash,
                file_idx,
                audio_index: track_choice(query.audio_index, &query.audio),
                subtitle_index: track_choice(query.subtitle_index, &query.subtitle),
            },
        ),
        Err(refusal) => Err(refusal),
    }
}

/// Files the stream that was made for a playlist request, and gives the URL of
/// its playlist. A stream without one is refused and not filed.
pub fn file_stream(
    cache: &mut ConvertCache,
    convert_id: &str,
    info_hash: String,
    stream: StreamData,
    now: u64,
) -> (r: Result<String, Response>)
    ensures
        match stream.hls_url {
            Some(url) => r matches Ok(text) && text@ == url@ && final(cache).entries@ == filed(
                old(cache).entries@,
                convert_id@,
                ConvertEntry { info_hash, stream, last_used: now },
            ),
            None => (r matches Err(reply) && reply@ == error_response(
                BAD_GATEWAY,
                "Torbox createstream returned no hls_url"@,
            )) && final(cache).entries@ == old(cache).entries@,
        },
{
    match copy_opt(&stream.hls_url) {
        Some(url) => {
            cache.put_convert(convert_id, info_hash, stream, now);
            Ok(url)
        },
        None => Err(err_response(BAD_GATEWAY, "Torbox createstream returned no hls_url")),
    }
}

/// How often a playlist that is not ready is asked for again.
pub const WARMUP_RETRIES: u64 = 12;

/// How long to sleep before asking again, in milliseconds.
pub const WARMUP_INTERVAL: u64 = 5_000;

/// The fetching of a playlist whose stream may still be warming up.
#[derive(Debug)]
pub struct Warmup {
    /// How often the playlist was asked for again.
    pub attempts: u64,
}

/// What to do next for a playlist.
#[derive(Debug)]
pub enum WarmupAction {
    /// Read the body of the reply.
    ReadBody,
    /// Sleep for [`WARMUP_INTERVAL`], then ask again.
    Retry,
    /// Give up, for this reason.
    Fail(String),
}

/// What a [`WarmupAction`] stands for.
pub enum WarmupActionView {
    ReadBody,
    Retry,
    Fail(Seq<char>),
}

impl View for WarmupAction {
    type V = WarmupActionView;

    open spec fn view(&self) -> WarmupActionView {
        match self {
            WarmupAction::ReadBody => WarmupActionView::ReadBody,
            WarmupAction::Retry => WarmupActionView::Retry,
            WarmupAction::Fail(reason) => WarmupActionView::Fail(reason@),
        }
    }
}

/// Whether a status says that a stream is still warming up.
pub open spec fn warming_up(status: u16) -> bool {
    status == GATEWAY_TIMEOUT || status == SERVICE_UNAVAILABLE
}

/// What to do on the reply to a request for a playlist.
pub open spec fn warmup_action(
    attempts: u64,
    status: u16,
    status_text: Seq<char>,
) -> WarmupActionView {
    if 200 <= status < 300 {
        WarmupActionView::ReadBody
    } else if warming_up(status) && attempts < WARMUP_RETRIES {
        WarmupActionView::Retry
    } else {
        WarmupActionView::Fail(
            "playlist fetch returned non-success status "@ + status_text + " after "@ + decimal(
                attempts as nat,
            ) + " retries"@,
        )
    }
}

impl Warmup {
    /// The fetching of a playlist that was not asked for yet.
    pub fn new() -> (r: Self)
        ensures
            r.attempts == 0,
    {
        Warmup { attempts: 0 }
    }

    /// Takes the status of the reply, as a number and as text, and says what
    /// to do next.
    pub fn replied(&mut self, status: u16, status_text: &str) -> (r: WarmupAction)
        ensures
            r@ == warmup_action(old(self).attempts, status, status_text@),
            final(self).attempts == (if r is Retry {
                old(self).attempts + 1
            } else {
                old(self).attempts as int
            }),
            200 <= status <= 299 ==> r@ == WarmupActionView::ReadBody,
            (status == 503 || status == 504) && old(self).attempts < 12 ==> r@
                == WarmupActionView::Retry,
            !(200 <= status <= 299) && !((status == 503 || status == 504) && old(self).attempts
                < 12) ==> r@ == WarmupActionView::Fail(
                "playlist fetch returned non-success status "@ + status_text@ + " after "@ + decimal(
                    old(self).attempts as nat,
                ) + " retries"@,
            ),
    {
        if status >= 200 && status < 300 {
            return WarmupAction::ReadBody;
        }
        if (status == GATEWAY_TIMEOUT || status == SERVICE_UNAVAILABLE) && self.attempts
            < WARMUP_RETRIES {
            self.attempts = self.attempts + 1;
            return WarmupAction::Retry;
        }
        let mut reason = "playlist fetch returned non-success status ".to_owned();
        reason.append(status_text);
        reason.append(" after ");
        reason.append(&show_u64(self.attempts));
        reason.append(" retries");
        WarmupAction::Fail(reason)
    }
}

/// How the fetching of a playlist ended.
#[derive(Debug)]
pub enum PlaylistFetch {
    /// The playlist came.
    Body(String),
    /// The request could not be sent.
    NotSent(String),
    /// The body could not be read.
    NotRead(String),
    /// The reply was no success.
    Failed(String),
}

/// Why there is no playlist. The reason may quote the URL, so it ends before a
/// token.
pub open spec fn fetch_failure(fetch: PlaylistFetch) -> Option<Seq<char>> {
    match fetch {
        PlaylistFetch::Body(_) => None,
        PlaylistFetch::NotSent(reason) => Some(told("playlist fetch failed: "@ + reason@)),
        PlaylistFetch::NotRead(reason) => Some(told("playlist body read failed: "@ + reason@)),
        PlaylistFetch::Failed(reason) => Some(told(reason@)),
    }
}

/// The reply to a playlist request once the fetching has ended: a redirect to
/// the stream itself in direct mode, else the rewritten playlist.
pub open spec fn playlist_outcome(
    fetch: PlaylistFetch,
    hls_url: Seq<char>,
    convert_id: Seq<char>,
    public_base: Option<Seq<char>>,
    direct_hls: bool,
) -> ResponseView {
    match fetch {
        PlaylistFetch::Body(body) => if direct_hls {
            redirect_response(FOUND, hls_url)
        } else {
            playlist_response(rewritten(body@, hls_url, convert_id, public_base))
        },
        _ => error_response(BAD_GATEWAY, fetch_failure(fetch).unwrap()),
    }
}

/// Whether what a playlist is rewritten from and with reads as single lines and
/// has no mark of this gateway's own.
pub open spec fn is_plain_setting(
    fetch: PlaylistFetch,
    convert_id: Seq<char>,
    public_base: Option<Seq<char>>,
) -> bool {
    let prefix = segment_prefix(convert_id, public_base);
    no_marks(prefix) && no_breaks(prefix) && (fetch matches PlaylistFetch::Body(body)
        ==> no_bare_returns(body@))
}

/// Whether the text of a reply carries no token on any line.
pub open spec fn text_hides_token(reply: ResponseView) -> bool {
    reply.body matches BodyView::Text(text) ==> forall|i: int|
        0 <= i < lines(text).len() ==> carries_no_token(#[trigger] lines(text)[i])
}

/// Answers a playlist request once the fetching has ended. Outside direct mode
/// no line of the playlist carries a token, where the prefix of the gateway has
/// no marks and no break is bare. In no mode does a reason mention a token.
pub fn playlist(
    fetch: PlaylistFetch,
    hls_url: &str,
    convert_id: &str,
    public_base: Option<&str>,
    direct_hls: bool,
) -> (r: Response)
    ensures
        r@ == playlist_outcome(fetch, hls_url@, convert_id@, opt_str(public_base), direct_hls),
        !direct_hls && is_plain_setting(fetch, convert_id@, opt_str(public_base))
            ==> text_hides_token(r@),
        fetch_failure(fetch) matches Some(reason) ==> !mentions_token(reason),
{
    match fetch {
        PlaylistFetch::Body(body) => {
            if direct_hls {
                redirect(FOUND, hls_url)
            } else {
                playlist_reply(rewrite_playlist(&body, hls_url, convert_id, public_base))
            }
        },
        PlaylistFetch::NotSent(reason) => {
            let mut message = "playlist fetch failed: ".to_owned();
            message.append(&reason);
            err_response(BAD_GATEWAY, &hide_mention(&message))
        },
        PlaylistFetch::NotRead(reason) => {
            let mut message = "playlist body read failed: ".to_owned();
            message.append(&reason);
            err_response(BAD_GATEWAY, &hide_mention(&message))
        },
        PlaylistFetch::Failed(reason) => err_response(BAD_GATEWAY, &hide_mention(&reason)),
    }
}

// ---------------------------------------------------------------------------
// Segments
// ---------------------------------------------------------------------------

/// The reply to a segment request, given the URL of the segment.
pub open spec fn segment_reply(url: Result<Seq<char>, Seq<char>>) -> ResponseView {
    match url {
        Ok(u) => redirect_response(FOUND, stripped(u)),
        Err(reason) => error_response(BAD_GATEWAY, reason),
    }
}

/// The reply to a segment request: a redirect to the segment, without the
/// token.
pub open spec fn segment_outcome(
    entry: Option<ConvertEntry>,
    segment_name: Seq<char>,
) -> ResponseView {
    match entry {
        Some(e) => match e.stream.hls_url {
            Some(hls_url) => segment_reply(segment_url(hls_url@, segment_name)),
            None => error_response(BAD_GATEWAY, "Torbox returned no hls_url"@),
        },
        None => error_response(
            NOT_FOUND,
            "Unknown convertId — playlist must be requested first"@,
        ),
    }
}

/// Whether every location of a reply is free of tokens.
pub open spec fn locations_are_token_free(reply: ResponseView) -> bool {
    forall|i: int|
        0 <= i < reply.headers.len() && (#[trigger] reply.headers[i]).0 == "location"@
            ==> token_free(reply.headers[i].1)
}

/// Redirects to a segment. The location carries no token; the URL of a segment
/// on the web that has no query is the location as it reads.
pub fn redirect_to_segment(url: Result<String, String>) -> (r: Response)
    ensures
        r@ == segment_reply(text_result(url)),
        locations_are_token_free(r@),
        url matches Ok(u) ==> (parsed_url(u@) matches Ok(parts) ==> is_web(parts)
            && parts.query is None ==> stripped(u@) == parts.text),
{
    proof {
        reveal_strlit("location");
        reveal_strlit("content-type");
        assert("location"@.len() != "content-type"@.len());
    }
    match url {
        Ok(u) => redirect(FOUND, &strip_token(&u)),
        Err(reason) => err_response(BAD_GATEWAY, &reason),
    }
}

/// Whether a segment is found again: a line with its name becomes that name on
/// this gateway, encoded in a way that decodes to the name, and asking for the
/// name redirects to what the line named.
pub open spec fn leads_back(
    playlist_url: Seq<char>,
    segment_name: Seq<char>,
    reply: ResponseView,
) -> bool {
    &&& forall|prefix: Seq<char>| #[trigger]
        rewritten_line(segment_name, playlist_url, prefix) == segment_line(prefix, segment_name)
    &&& percent_decoded(url_encoded(segment_name)) == encode_utf8(segment_name)
    &&& resolved(playlist_url, segment_name) matches Some(url) && reply == redirect_response(
        FOUND,
        url,
    )
}

/// Answers a segment request. What a plain name names beside a playlist of the
/// web is found again by way of the rewritten playlist.
pub fn segment(
    cache: &mut ConvertCache,
    convert_id: &str,
    segment_name: &str,
    now: u64,
) -> (r: Response)
    ensures
        r@ == segment_outcome(entry_of(old(cache).entries@, convert_id@), segment_name@),
        locations_are_token_free(r@),
        entry_of(old(cache).entries@, convert_id@) matches Some(entry) ==> (
        entry.stream.hls_url matches Some(hls_url) ==> names_beside(hls_url@, segment_name@)
            ==> leads_back(hls_url@, segment_name@, r@)),
        old(cache).entries@.contains_key(convert_id@) ==> (
        old(cache).entries@[convert_id@].stream.hls_url matches Some(hls_url) ==> (parsed_url(
            hls_url@,
        ) matches Ok(base) ==> (base.path_segments matches Some(path) ==> reads_as_itself(base)
            && is_plain_name(segment_name@) ==> (joined_url(hls_url@, segment_name@) matches Ok(u)
            && (parsed_url(u) matches Ok(url) && url.scheme == base.scheme && url.host == base.host
            && url.port == base.port && url.path_segments == Some(
            path.drop_last().push(segment_name@),
        ) && url.query is None) && (is_header_value(u) ==> r@.status == 302 && r@.headers == seq![
            ("location"@, u),
        ] && r@.body == BodyView::Empty))))),
        final(cache).entries@ == touched(old(cache).entries@, convert_id@, now),
{
    proof {
        reveal_strlit("location");
        reveal_strlit("content-type");
        assert("location"@.len() != "content-type"@.len());
    }
    match cache.get_convert(convert_id, now) {
        Some(entry) => match &entry.stream.hls_url {
            Some(hls_url) => {
                let url = join_segment_url(hls_url, segment_name);
                proof {
                    if names_beside(hls_url@, segment_name@) {
                        plain_names_resolve(hls_url@, segment_name@);
                        encoded_values_decode(segment_name@, segment_name@);
                    }
                }
                redirect_to_segment(url)
            },
            None => err_response(BAD_GATEWAY, "Torbox returned no hls_url"),
        },
        None => err_response(
            NOT_FOUND,
            "Unknown convertId — playlist must be requested first",
        ),
    }
}

// ---------------------------------------------------------------------------
// Laws
// ---------------------------------------------------------------------------

/// What was filed is found; what else is found was used lately, and stands for
/// what it stood for.
pub proof fn filed_is_found(map: Converts, id: Seq<char>, entry: ConvertEntry, asked: Seq<char>)
    ensures
        entry_of(filed(map, id, entry), asked) == (if asked == id {
            Some(entry)
        } else {
            match entry_of(map, asked) {
                Some(e) => if fresh(e, entry.last_used) {
                    Some(e)
                } else {
                    None
                },
                None => None,
            }
        }),
{
}

/// Using an entry keeps it fresh, changes nothing else of it, and leaves every
/// other entry as it is.
pub proof fn touching_keeps_fresh(map: Converts, id: Seq<char>, now: u64, asked: Seq<char>)
    ensures
        entry_of(map, id) matches Some(e) ==> entry_of(touched(map, id, now), id) == Some(
            ConvertEntry { last_used: now, ..e },
        ) && fresh(entry_of(touched(map, id, now), id).unwrap(), now),
        asked != id || entry_of(map, id) is None ==> entry_of(touched(map, id, now), asked)
            == entry_of(map, asked),
{
}

/// How often a playlist is asked for again, over a row of replies.
pub open spec fn retries(attempts: u64, statuses: Seq<u16>) -> nat
    decreases statuses.len(),
{
    if statuses.len() == 0 || !(warmup_action(attempts, statuses[0], Seq::empty()) is Retry) {
        0
    } else {
        1 + retries((attempts + 1) as u64, statuses.drop_first())
    }
}

/// Whatever the replies, a playlist is asked for again twelve times at most.
pub proof fn retries_are_bounded(attempts: u64, statuses: Seq<u16>)
    ensures
        retries(attempts, statuses) <= WARMUP_RETRIES,
        attempts <= WARMUP_RETRIES ==> attempts + retries(attempts, statuses) <= WARMUP_RETRIES,
    decreases statuses.len(),
{
    if statuses.len() > 0 && attempts < WARMUP_RETRIES {
        retries_are_bounded((attempts + 1) as u64, statuses.drop_first());
    }
}

} // verus!
