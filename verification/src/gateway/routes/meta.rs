//! The routes that tell a client what this server is and what it can play.
use vstd::prelude::*;
use vstd::string::*;

use crate::config::GatewayConfig;
use crate::gateway::routes::helpers::{
    err_response, error_response, local_source, media_request, parse_local_media_url,
    request_media, source_result, source_view,
};
use crate::gateway::state::{
    described, described_keeps_mappings, known, Mappings, TorrentMapping,
};
use crate::json::{
    bool_or_null, double_or_null, i64_or_null, item_views, json_array, json_object, json_opt_bool,
    json_opt_double, json_opt_i64, json_opt_text, json_opt_u32, json_text, no_items, no_members,
    push_item, push_member, text_or_null, u32_or_null, Json, JsonView,
};
use crate::response::{
    json_reply, json_response, text_reply, text_response, Response, ResponseView, BAD_REQUEST, OK,
};
use crate::text::{
    after_last_dot, chars_of, copy_opt, decimal, extension_of, lower, opt_str, opt_text, same_text,
    show_u64, to_lower,
};
use crate::torbox::{AudioTrack, IntroInformation, StreamData, SubtitleTrack, VideoTrack};

verus! {

// ---------------------------------------------------------------------------
// What this server is
// ---------------------------------------------------------------------------

/// The document of the root.
pub open spec fn root_document(version: Seq<char>) -> JsonView {
    JsonView::Object(
        seq![
            ("name"@, JsonView::Str("stremio-service (torbox gateway)"@)),
            ("version"@, JsonView::Str(version)),
            ("ok"@, JsonView::Bool(true)),
        ],
    )
}

/// Answers a request for the root.
pub fn root(version: &str) -> (r: Response)
    ensures
        r@ == json_response(OK, root_document(version@)),
{
    let mut members = no_members();
    push_member(&mut members, "name", json_text("stremio-service (torbox gateway)"));
    push_member(&mut members, "version", json_text(version));
    push_member(&mut members, "ok", Json::Bool(true));
    let document = json_object(members);
    proof {
        assert(document@->Object_0 =~= root_document(version@)->Object_0);
    }
    json_reply(OK, document)
}

/// An IP address as the host of a URL: one with colons stands in brackets.
pub open spec fn host_text(bind: Seq<char>) -> Seq<char> {
    if bind.contains(':') {
        "["@ + bind + "]"@
    } else {
        bind
    }
}

/// Writes an IP address as the host of a URL.
pub fn url_host(bind: &str) -> (r: String)
    ensures
        r@ == host_text(bind@),
{
    let cs = chars_of(bind);
    let n: usize = cs.len();
    let mut i: usize = 0;
    while i < n
        invariant
            i <= n,
            n == cs@.len(),
            cs@ == bind@,
            forall|j: int| 0 <= j < i ==> #[trigger] bind@[j] != ':',
        decreases n - i,
    {
        if cs[i] == ':' {
            proof {
                assert(bind@[i as int] == ':');
            }
            let mut out = "[".to_owned();
            out.append(bind);
            out.append("]");
            return out;
        }
        i = i + 1;
    }
    bind.to_owned()
}

/// The address that clients reach the gateway at.
pub open spec fn base_url(cfg: GatewayConfig) -> Seq<char> {
    match cfg.public_base_url {
        Some(url) => url@,
        None => "http://"@ + host_text(cfg.bind@) + ":"@ + decimal(cfg.port as nat),
    }
}

/// The settings proper.
pub open spec fn settings_values(force_transcode: bool) -> JsonView {
    JsonView::Object(
        seq![
            ("serverVersion"@, JsonView::Str("4.20.17"@)),
            ("appPath"@, JsonView::Str("/dev/null"@)),
            ("cacheRoot"@, JsonView::Str("/dev/null"@)),
            ("cacheSize"@, JsonView::Null),
            ("btMaxConnections"@, JsonView::Int(0)),
            ("btHandshakeTimeout"@, JsonView::Int(0)),
            ("btRequestTimeout"@, JsonView::Int(0)),
            ("btDownloadSpeedSoftLimit"@, JsonView::Int(0)),
            ("btDownloadSpeedHardLimit"@, JsonView::Int(0)),
            ("btMinPeersForStable"@, JsonView::Int(0)),
            ("remoteHttps"@, JsonView::Str(""@)),
            ("proxyStreamsEnabled"@, JsonView::Bool(false)),
            ("transcodeProfile"@, JsonView::Null),
            ("transcodingEnabled"@, JsonView::Bool(true)),
            ("forceTranscoding"@, JsonView::Bool(force_transcode)),
            ("torboxBacked"@, JsonView::Bool(true)),
        ],
    )
}

/// A value to select, under the name that the user sees.
pub open spec fn selection(name: Seq<char>, val: JsonView) -> JsonView {
    JsonView::Object(seq![("name"@, JsonView::Str(name)), ("val"@, val)])
}

/// The option that the user may set: the way of transcoding.
pub open spec fn settings_option() -> JsonView {
    JsonView::Object(
        seq![
            ("id"@, JsonView::Str("transcodeProfile"@)),
            ("label"@, JsonView::Str("TRANSCODE_PROFILE"@)),
            ("type"@, JsonView::Str("select"@)),
            (
                "selections"@,
                JsonView::Array(
                    seq![
                        selection("Disabled"@, JsonView::Null),
                        selection("Torbox (HLS)"@, JsonView::Str("torbox"@)),
                    ],
                ),
            ),
        ],
    )
}

/// The settings document, in the shape that clients read.
pub open spec fn settings_document(cfg: GatewayConfig) -> JsonView {
    JsonView::Object(
        seq![
            ("baseUrl"@, JsonView::Str(base_url(cfg))),
            ("values"@, settings_values(cfg.force_transcode)),
            ("options"@, JsonView::Array(seq![settings_option()])),
        ],
    )
}

fn settings_values_json(force_transcode: bool) -> (r: Json)
    ensures
        r@ == settings_values(force_transcode),
{
    let mut values = no_members();
    push_member(&mut values, "serverVersion", json_text("4.20.17"));
    push_member(&mut values, "appPath", json_text("/dev/null"));
    push_member(&mut values, "cacheRoot", json_text("/dev/null"));
    push_member(&mut values, "cacheSize", Json::Null);
    push_member(&mut values, "btMaxConnections", Json::Int(0));
    push_member(&mut values, "btHandshakeTimeout", Json::Int(0));
    push_member(&mut values, "btRequestTimeout", Json::Int(0));
    push_member(&mut values, "btDownloadSpeedSoftLimit", Json::Int(0));
    push_member(&mut values, "btDownloadSpeedHardLimit", Json::Int(0));
    push_member(&mut values, "btMinPeersForStable", Json::Int(0));
    push_member(&mut values, "remoteHttps", json_text(""));
    push_member(&mut values, "proxyStreamsEnabled", Json::Bool(false));
    push_member(&mut values, "transcodeProfile", Json::Null);
    push_member(&mut values, "transcodingEnabled", Json::Bool(true));
    push_member(&mut values, "forceTranscoding", Json::Bool(force_transcode));
    push_member(&mut values, "torboxBacked", Json::Bool(true));
    let document = json_object(values);
    proof {
        assert(document@->Object_0 =~= settings_values(force_transcode)->Object_0);
    }
    document
}

fn selection_json(name: &str, val: Json) -> (r: Json)
    ensures
        r@ == selection(name@, val@),
{
    let mut members = no_members();
    push_member(&mut members, "name", json_text(name));
    push_member(&mut members, "val", val);
    let document = json_object(members);
    proof {
        assert(document@->Object_0 =~= selection(name@, val@)->Object_0);
    }
    document
}

fn settings_option_json() -> (r: Json)
    ensures
        r@ == settings_option(),
{
    let mut selections = no_items();
    push_item(&mut selections, selection_json("Disabled", Json::Null));
    push_item(&mut selections, selection_json("Torbox (HLS)", json_text("torbox")));
    proof {
        assert(item_views(selections@) =~= seq![
            selection("Disabled"@, JsonView::Null),
            selection("Torbox (HLS)"@, JsonView::Str("torbox"@)),
        ]);
    }
    let mut option = no_members();
    push_member(&mut option, "id", json_text("transcodeProfile"));
    push_member(&mut option, "label", json_text("TRANSCODE_PROFILE"));
    push_member(&mut option, "type", json_text("select"));
    push_member(&mut option, "selections", json_array(selections));
    let document = json_object(option);
    proof {
        assert(document@->Object_0 =~= settings_option()->Object_0);
    }
    document
}

/// Builds the settings document.
pub fn settings_json(cfg: &GatewayConfig) -> (r: Json)
    ensures
        r@ == settings_document(*cfg),
{
    let base = match copy_opt(&cfg.public_base_url) {
        Some(url) => url,
        None => {
            let mut url = "http://".to_owned();
            url.append(&url_host(&cfg.bind));
            url.append(":");
            url.append(&show_u64(cfg.port as u64));
            url
        },
    };
    let mut options = no_items();
    push_item(&mut options, settings_option_json());
    let mut members = no_members();
    push_member(&mut members, "baseUrl", json_text(&base));
    push_member(&mut members, "values", settings_values_json(cfg.force_transcode));
    push_member(&mut members, "options", json_array(options));
    let document = json_object(members);
    proof {
        assert(document@->Object_0 =~= settings_document(*cfg)->Object_0);
    }
    document
}

/// Answers a request for the settings.
pub fn settings_get(cfg: &GatewayConfig) -> (r: Response)
    ensures
        r@ == json_response(OK, settings_document(*cfg)),
{
    json_reply(OK, settings_json(cfg))
}

/// A document with one member.
pub open spec fn single(name: Seq<char>, value: JsonView) -> JsonView {
    JsonView::Object(seq![(name, value)])
}

/// Builds a document with one member.
fn single_json(name: &str, value: Json) -> (r: Json)
    ensures
        r@ == single(name@, value@),
{
    let mut members = no_members();
    push_member(&mut members, name, value);
    json_object(members)
}

/// Answers a change of the settings. Nothing changes; the client only reads
/// that it succeeded.
pub fn settings_post() -> (r: Response)
    ensures
        r@ == json_response(OK, single("success"@, JsonView::Bool(true))),
{
    json_reply(OK, single_json("success", Json::Bool(true)))
}

/// The document that says that the gateway runs, and for how long.
pub open spec fn status_document(version: Seq<char>, uptime: u64) -> JsonView {
    JsonView::Object(
        seq![
            ("ok"@, JsonView::Bool(true)),
            ("version"@, JsonView::Str(version)),
            ("uptime"@, JsonView::Int(uptime as int)),
            ("transcoding"@, JsonView::Str("torbox"@)),
        ],
    )
}

/// Answers a request for the status.
pub fn status(version: &str, uptime: u64) -> (r: Response)
    ensures
        r@ == json_response(OK, status_document(version@, uptime)),
{
    let mut members = no_members();
    push_member(&mut members, "ok", Json::Bool(true));
    push_member(&mut members, "version", json_text(version));
    push_member(&mut members, "uptime", Json::UInt(uptime));
    push_member(&mut members, "transcoding", json_text("torbox"));
    let document = json_object(members);
    proof {
        assert(document@->Object_0 =~= status_document(version@, uptime)->Object_0);
    }
    json_reply(OK, document)
}

/// The whole seconds between two times of the gateway's clock, in
/// milliseconds; none where the clock went back.
pub fn uptime_seconds(start: u64, now: u64) -> (r: u64)
    ensures
        r == (if now < start {
            0
        } else {
            (now - start) / 1000
        }),
{
    now.saturating_sub(start) / 1000
}

/// Answers a heartbeat.
pub fn heartbeat() -> (r: Response)
    ensures
        r@ == text_response(OK, "ok"@),
{
    text_reply(OK, "ok")
}

/// Answers that there are no network interfaces to advertise.
pub fn network_info() -> (r: Response)
    ensures
        r@ == json_response(OK, single("availableInterfaces"@, JsonView::Array(Seq::empty()))),
{
    json_reply(OK, single_json("availableInterfaces", json_array(no_items())))
}

/// Answers which ways of transcoding a user may pick.
pub fn device_info() -> (r: Response)
    ensures
        r@ == json_response(
            OK,
            single(
                "availableHardwareAccelerations"@,
                JsonView::Array(seq![JsonView::Str("torbox"@)]),
            ),
        ),
{
    let mut items = no_items();
    push_item(&mut items, json_text("torbox"));
    json_reply(OK, single_json("availableHardwareAccelerations", json_array(items)))
}

/// Answers that there are no devices to cast to.
pub fn casting() -> (r: Response)
    ensures
        r@ == json_response(OK, JsonView::Array(Seq::empty())),
{
    json_reply(OK, json_array(no_items()))
}

// ---------------------------------------------------------------------------
// What a file holds
// ---------------------------------------------------------------------------

/// The query of a probe.
#[derive(Debug)]
pub struct ProbeQuery {
    /// The URL to probe.
    pub media_url: Option<String>,
}

/// What a refused probe says of this gateway.
pub const PROBE_HINT: &'static str =
    ". This gateway only transcodes torrents added through itself.";

/// Reads the file that a probe names.
pub fn probe_request(query: &ProbeQuery) -> (r: Result<(String, i64), Response>)
    ensures
        source_result(r) == media_request(opt_text(query.media_url), PROBE_HINT@),
{
    request_media(&query.media_url, PROBE_HINT)
}

/// The name of a container, by the extension of a file.
pub open spec fn container_of(extension: Seq<char>) -> Seq<char> {
    if extension == "mkv"@ || extension == "webm"@ {
        "matroska,webm"@
    } else if extension == "mp4"@ || extension == "m4v"@ || extension == "m4a"@ || extension
        == "mov"@ || extension == "3gp"@ {
        "mov,mp4,m4a,3gp,3g2,mj2"@
    } else if extension == "avi"@ {
        "avi"@
    } else if extension == "ts"@ || extension == "m2ts"@ || extension == "mts"@ {
        "mpegts"@
    } else if extension == "flv"@ {
        "flv"@
    } else if extension == "wmv"@ || extension == "asf"@ {
        "asf"@
    } else {
        "mov,mp4,m4a,3gp,3g2,mj2,matroska,webm"@
    }
}

/// The name of a container, by the name of a file. A file without a name has
/// no extension.
pub open spec fn container_name(name: Option<Seq<char>>) -> Seq<char> {
    match name {
        Some(n) => container_of(after_last_dot(lower(n))),
        None => container_of(Seq::empty()),
    }
}

/// Names the container of a file the way that FFmpeg does. An unknown
/// extension gets the widest name, so that playing the file directly remains
/// an option.
pub fn container_from_filename(name: Option<&str>) -> (r: &'static str)
    ensures
        r@ == container_name(opt_str(name)),
{
    let lowered = match name {
        Some(n) => to_lower(n),
        None => String::new(),
    };
    let extension = extension_of(&lowered);
    proof {
        if name is None {
            assert(extension@ == Seq::<char>::empty());
        }
    }
    if same_text(extension, "mkv") || same_text(extension, "webm") {
        "matroska,webm"
    } else if same_text(extension, "mp4") || same_text(extension, "m4v") || same_text(
        extension,
        "m4a",
    ) || same_text(extension, "mov") || same_text(extension, "3gp") {
        "mov,mp4,m4a,3gp,3g2,mj2"
    } else if same_text(extension, "avi") {
        "avi"
    } else if same_text(extension, "ts") || same_text(extension, "m2ts") || same_text(
        extension,
        "mts",
    ) {
        "mpegts"
    } else if same_text(extension, "flv") {
        "flv"
    } else if same_text(extension, "wmv") || same_text(extension, "asf") {
        "asf"
    } else {
        "mov,mp4,m4a,3gp,3g2,mj2,matroska,webm"
    }
}

/// The description of a video track.
pub open spec fn video_document(v: VideoTrack) -> JsonView {
    JsonView::Object(
        seq![
            ("track"@, JsonView::Str("video"@)),
            ("codec"@, text_or_null(v.codec)),
            ("width"@, u32_or_null(v.width)),
            ("height"@, u32_or_null(v.height)),
            ("pixelFormat"@, text_or_null(v.pixel_format)),
            ("frameRate"@, text_or_null(v.frame_rate)),
            ("bitrate"@, text_or_null(v.bitrate)),
            ("duration"@, text_or_null(v.duration)),
        ],
    )
}

fn video_json(v: &VideoTrack) -> (r: Json)
    ensures
        r@ == video_document(*v),
{
    let mut members = no_members();
    push_member(&mut members, "track", json_text("video"));
    push_member(&mut members, "codec", json_opt_text(&v.codec));
    push_member(&mut members, "width", json_opt_u32(v.width));
    push_member(&mut members, "height", json_opt_u32(v.height));
    push_member(&mut members, "pixelFormat", json_opt_text(&v.pixel_format));
    push_member(&mut members, "frameRate", json_opt_text(&v.frame_rate));
    push_member(&mut members, "bitrate", json_opt_text(&v.bitrate));
    push_member(&mut members, "duration", json_opt_text(&v.duration));
    let document = json_object(members);
    proof {
        assert(document@->Object_0 =~= video_document(*v)->Object_0);
    }
    document
}

/// The members of a track's description, and its number where it has one.
pub open spec fn numbered(members: Seq<(Seq<char>, JsonView)>, index: Option<u32>) -> JsonView {
    match index {
        Some(_) => JsonView::Object(members.push(("index"@, u32_or_null(index)))),
        None => JsonView::Object(members),
    }
}

/// The description of an audio track.
pub open spec fn audio_document(a: AudioTrack) -> JsonView {
    numbered(
        seq![
            ("track"@, JsonView::Str("audio"@)),
            ("codec"@, text_or_null(a.codec)),
            ("channels"@, u32_or_null(a.channels)),
            ("language"@, text_or_null(a.language)),
            ("title"@, text_or_null(a.title)),
        ],
        a.index,
    )
}

fn audio_json(a: &AudioTrack) -> (r: Json)
    ensures
        r@ == audio_document(*a),
{
    let mut members = no_members();
    push_member(&mut members, "track", json_text("audio"));
    push_member(&mut members, "codec", json_opt_text(&a.codec));
    push_member(&mut members, "channels", json_opt_u32(a.channels));
    push_member(&mut members, "language", json_opt_text(&a.language));
    push_member(&mut members, "title", json_opt_text(&a.title));
    if a.index.is_some() {
        push_member(&mut members, "index", json_opt_u32(a.index));
    }
    let document = json_object(members);
    proof {
        assert(document@->Object_0 =~= audio_document(*a)->Object_0);
    }
    document
}

/// The description of a subtitle track.
pub open spec fn subtitle_document(s: SubtitleTrack) -> JsonView {
    numbered(
        seq![
            ("track"@, JsonView::Str("subtitle"@)),
            ("codec"@, text_or_null(s.codec)),
            ("language"@, text_or_null(s.language)),
            ("title"@, text_or_null(s.title)),
        ],
        s.index,
    )
}

fn subtitle_json(s: &SubtitleTrack) -> (r: Json)
    ensures
        r@ == subtitle_document(*s),
{
    let mut members = no_members();
    push_member(&mut members, "track", json_text("subtitle"));
    push_member(&mut members, "codec", json_opt_text(&s.codec));
    push_member(&mut members, "language", json_opt_text(&s.language));
    push_member(&mut members, "title", json_opt_text(&s.title));
    if s.index.is_some() {
        push_member(&mut members, "index", json_opt_u32(s.index));
    }
    let document = json_object(members);
    proof {
        assert(document@->Object_0 =~= subtitle_document(*s)->Object_0);
    }
    document
}

/// The descriptions of a stream's tracks: the video, the audio tracks, then
/// the subtitles.
pub open spec fn track_documents(data: StreamData) -> Seq<JsonView> {
    match data.metadata {
        Some(m) => (match m.video {
            Some(v) => seq![video_document(v)],
            None => Seq::empty(),
        }) + m.audios@.map_values(|a: AudioTrack| audio_document(a)) + m.subtitles@.map_values(
            |s: SubtitleTrack| subtitle_document(s),
        ),
        None => Seq::empty(),
    }
}

fn push_audios(items: &mut Vec<Json>, audios: &Vec<AudioTrack>)
    ensures
        item_views(final(items)@) == item_views(old(items)@) + audios@.map_values(
            |a: AudioTrack| audio_document(a),
        ),
{
    let ghost before = item_views(items@);
    let ghost all = audios@.map_values(|a: AudioTrack| audio_document(a));
    let n: usize = audios.len();
    let mut i: usize = 0;
    proof {
        assert(before + all.take(0) == before);
    }
    while i < n
        invariant
            i <= n,
            n == audios@.len(),
            all == audios@.map_values(|a: AudioTrack| audio_document(a)),
            item_views(items@) == before + all.take(i as int),
        decreases n - i,
    {
        push_item(items, audio_json(&audios[i]));
        proof {
            assert(all.take(i + 1) == all.take(i as int).push(audio_document(audios@[i as int])));
            assert(before + all.take(i + 1) == (before + all.take(i as int)).push(
                audio_document(audios@[i as int]),
            ));
        }
        i = i + 1;
    }
    proof {
        assert(all.take(n as int) == all);
    }
}

fn push_subtitles(items: &mut Vec<Json>, subtitles: &Vec<SubtitleTrack>)
    ensures
        item_views(final(items)@) == item_views(old(items)@) + subtitles@.map_values(
            |s: SubtitleTrack| subtitle_document(s),
        ),
{
    let ghost before = item_views(items@);
    let ghost all = subtitles@.map_values(|s: SubtitleTrack| subtitle_document(s));
    let n: usize = subtitles.len();
    let mut i: usize = 0;
    proof {
        assert(before + all.take(0) == before);
    }
    while i < n
        invariant
            i <= n,
            n == subtitles@.len(),
            all == subtitles@.map_values(|s: SubtitleTrack| subtitle_document(s)),
            item_views(items@) == before + all.take(i as int),
        decreases n - i,
    {
        push_item(items, subtitle_json(&subtitles[i]));
        proof {
            assert(all.take(i + 1) == all.take(i as int).push(
                subtitle_document(subtitles@[i as int]),
            ));
            assert(before + all.take(i + 1) == (before + all.take(i as int)).push(
                subtitle_document(subtitles@[i as int]),
            ));
        }
        i = i + 1;
    }
    proof {
        assert(all.take(n as int) == all);
    }
}

fn track_items(data: &StreamData) -> (r: Vec<Json>)
    ensures
        item_views(r@) == track_documents(*data),
{
    let mut items = no_items();
    match &data.metadata {
        Some(m) => {
            match &m.video {
                Some(v) => {
                    push_item(&mut items, video_json(v));
                },
                None => {},
            }
            push_audios(&mut items, &m.audios);
            push_subtitles(&mut items, &m.subtitles);
        },
        None => {},
    }
    items
}

/// Where the intro of a video stands, or null.
pub open spec fn intro_document(intro: Option<IntroInformation>) -> JsonView {
    match intro {
        Some(i) => JsonView::Object(
            seq![
                ("start_time"@, double_or_null(i.start_time)),
                ("end_time"@, double_or_null(i.end_time)),
                ("title"@, text_or_null(i.title)),
            ],
        ),
        None => JsonView::Null,
    }
}

fn intro_json(intro: &Option<IntroInformation>) -> (r: Json)
    ensures
        r@ == intro_document(*intro),
{
    match intro {
        Some(i) => {
            let mut members = no_members();
            push_member(&mut members, "start_time", json_opt_double(i.start_time));
            push_member(&mut members, "end_time", json_opt_double(i.end_time));
            push_member(&mut members, "title", json_opt_text(&i.title));
            let document = json_object(members);
            proof {
                assert(document@->Object_0 =~= intro_document(*intro)->Object_0);
            }
            document
        },
        None => Json::Null,
    }
}

/// What Torbox says of a stream.
pub open spec fn torbox_document(data: StreamData) -> JsonView {
    JsonView::Object(
        seq![
            ("needs_transcoding"@, bool_or_null(data.needs_transcoding)),
            ("presigned_token"@, text_or_null(data.presigned_token)),
            ("open_subtitles_hash"@, text_or_null(data.open_subtitles_hash)),
            ("intro_information"@, intro_document(data.intro_information)),
            ("size"@, i64_or_null(data.size)),
        ],
    )
}

fn torbox_json(data: &StreamData) -> (r: Json)
    ensures
        r@ == torbox_document(*data),
{
    let mut members = no_members();
    push_member(&mut members, "needs_transcoding", json_opt_bool(data.needs_transcoding));
    push_member(&mut members, "presigned_token", json_opt_text(&data.presigned_token));
    push_member(&mut members, "open_subtitles_hash", json_opt_text(&data.open_subtitles_hash));
    push_member(&mut members, "intro_information", intro_json(&data.intro_information));
    push_member(&mut members, "size", json_opt_i64(data.size));
    let document = json_object(members);
    proof {
        assert(document@->Object_0 =~= torbox_document(*data)->Object_0);
    }
    document
}

/// The description of the stream that a mapping keeps: a probe that finds one
/// is answered without asking Torbox again.
pub fn probe_source(mapping: &TorrentMapping) -> (r: Option<&StreamData>)
    ensures
        r is Some <==> mapping.last_stream is Some,
        r matches Some(d) ==> mapping.last_stream == Some(*d),
{
    match &mapping.last_stream {
        Some(data) => Some(data),
        None => None,
    }
}

/// The document that answers a probe: the container, the tracks, and what
/// Torbox says of the stream.
pub open spec fn probe_document(file_name: Option<Seq<char>>, data: StreamData) -> JsonView {
    JsonView::Object(
        seq![
            ("format"@, single("name"@, JsonView::Str(container_name(file_name)))),
            ("streams"@, JsonView::Array(track_documents(data))),
            ("torbox"@, torbox_document(data)),
        ],
    )
}

/// Answers a probe, once the stream is described.
pub fn probe(mapping: &TorrentMapping, data: &StreamData) -> (r: Response)
    ensures
        r@ == json_response(OK, probe_document(opt_text(mapping.file_name), *data)),
{
    let container = match &mapping.file_name {
        Some(name) => container_from_filename(Some(name.as_str())),
        None => container_from_filename(None),
    };
    let mut members = no_members();
    push_member(&mut members, "format", single_json("name", json_text(container)));
    push_member(&mut members, "streams", json_array(track_items(data)));
    push_member(&mut members, "torbox", torbox_json(data));
    let document = json_object(members);
    proof {
        assert(document@->Object_0 =~= probe_document(opt_text(mapping.file_name), *data)->Object_0);
    }
    json_reply(OK, document)
}

// ---------------------------------------------------------------------------
// Subtitle hashes
// ---------------------------------------------------------------------------

/// The query for the hash of a video.
#[derive(Debug)]
pub struct OpenSubHashQuery {
    /// The URL of the video, which points back at this server.
    pub video_url: Option<String>,
}

/// What becomes of a request for the hash of a video, given the file that its
/// URL names.
pub open spec fn open_sub_source(source: Option<(Seq<char>, int)>) -> Result<
    (Seq<char>, int),
    ResponseView,
> {
    match source {
        Some(target) => Ok(target),
        None => Err(error_response(BAD_REQUEST, "videoUrl must point back at this server"@)),
    }
}

/// Refuses the URL of a video that does not point back at this server.
pub fn require_local_source(source: Option<(String, i64)>) -> (r: Result<(String, i64), Response>)
    ensures
        source_result(r) == open_sub_source(source_view(source)),
{
    match source {
        Some(target) => Ok(target),
        None => Err(err_response(BAD_REQUEST, "videoUrl must point back at this server")),
    }
}

/// Reads the file that a request for a hash names.
pub fn open_sub_hash_request(query: &OpenSubHashQuery) -> (r: Result<(String, i64), Response>)
    ensures
        source_result(r) == (match opt_text(query.video_url) {
            Some(url) => open_sub_source(local_source(url)),
            None => Err(error_response(BAD_REQUEST, "missing videoUrl"@)),
        }),
{
    match &query.video_url {
        Some(url) => require_local_source(parse_local_media_url(url)),
        None => Err(err_response(BAD_REQUEST, "missing videoUrl")),
    }
}

/// The document that gives the hash of a video; an unknown hash is empty.
pub open spec fn open_sub_document(data: StreamData) -> JsonView {
    single(
        "result"@,
        single(
            "hash"@,
            JsonView::Str(
                match data.open_subtitles_hash {
                    Some(hash) => hash@,
                    None => Seq::empty(),
                },
            ),
        ),
    )
}

/// Answers a request for the hash of a video, once the stream is described.
pub fn open_sub_hash(data: &StreamData) -> (r: Response)
    ensures
        r@ == json_response(OK, open_sub_document(*data)),
{
    let hash = match copy_opt(&data.open_subtitles_hash) {
        Some(hash) => hash,
        None => String::new(),
    };
    json_reply(OK, single_json("result", single_json("hash", json_text(&hash))))
}

// ---------------------------------------------------------------------------
// Laws
// ---------------------------------------------------------------------------

/// Clients are told of forced transcoding exactly where the operator asked for
/// it.
pub proof fn forced_transcoding_is_told(cfg: GatewayConfig)
    ensures
        settings_values(cfg.force_transcode) matches JsonView::Object(values) && values.contains(
            ("forceTranscoding"@, JsonView::Bool(cfg.force_transcode)),
        ),
        settings_document(cfg) matches JsonView::Object(members) && members.contains(
            ("values"@, settings_values(cfg.force_transcode)),
        ),
{
    let values = settings_values(cfg.force_transcode)->Object_0;
    assert(values[14] == ("forceTranscoding"@, JsonView::Bool(cfg.force_transcode)));
    let members = settings_document(cfg)->Object_0;
    assert(members[1] == ("values"@, settings_values(cfg.force_transcode)));
}

/// Once a stream is described, the next probe finds the description with its
/// mapping.
pub proof fn described_streams_are_probed(
    map: Mappings,
    info_hash: Seq<char>,
    stream: StreamData,
    now: u64,
)
    requires
        known(map, info_hash) is Some,
    ensures
        known(described(map, info_hash, stream, now), info_hash) matches Some(mapping)
            && mapping.last_stream == Some(stream),
{
    described_keeps_mappings(map, info_hash, stream, now, info_hash);
}

} // verus!
