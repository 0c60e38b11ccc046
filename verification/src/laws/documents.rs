//! The documents that routes answer with, member by member.
use vstd::prelude::*;
use vstd::utf8::*;

use crate::bindings::is_header_value;
use crate::config::GatewayConfig;
use crate::gateway::routes::meta::{
    audio_document, base_url, container_name, container_of, intro_document, open_sub_document,
    open_sub_source, probe_document, root_document, settings_document, settings_option,
    settings_values, single, status_document, subtitle_document, torbox_document, track_documents,
};
use crate::gateway::routes::stream::{
    create_outcome, created_document, file_stats_reply, hash_of_link, payload_magnet, payload_of,
    stream_file_reply, torrent_stats_reply, CreatePayload, CreatePayloadView,
    CreateRequestView,
};
use crate::gateway::state::{Mappings, TorrentMapping};
use crate::info_hash::normalized_hash;
use crate::json::{Double, JsonView};
use crate::laws::hls::is_failure;
use crate::laws::text::{beginnings_and_ends, extensions_follow_the_last_dot};
use crate::response::{BodyView, ResponseView};
use crate::text::{after_last_dot, decimal, lower, trimmed};
use crate::torbox::{
    AudioTrack, IntroInformation, StreamData, StreamMetadata, SubtitleTrack, VideoTrack,
};

verus! {

/// Whether a document is an object of so many members.
pub open spec fn is_object(document: JsonView, n: nat) -> bool {
    document matches JsonView::Object(members) && members.len() == n
}

/// Whether a document is an object with this member at this place.
pub open spec fn has_member(document: JsonView, i: int, name: Seq<char>, value: JsonView) -> bool {
    document matches JsonView::Object(members) && 0 <= i < members.len() && members[i] == (
        name,
        value,
    )
}

/// Whether a value tells an optional text: the text, or null.
pub open spec fn tells_text(value: JsonView, text: Option<String>) -> bool {
    match text {
        Some(t) => value == JsonView::Str(t@),
        None => value == JsonView::Null,
    }
}

/// Whether an object tells an optional text at this place.
pub open spec fn member_tells_text(
    document: JsonView,
    i: int,
    name: Seq<char>,
    text: Option<String>,
) -> bool {
    document matches JsonView::Object(members) && 0 <= i < members.len() && members[i].0 == name
        && tells_text(members[i].1, text)
}

/// Whether an object tells an optional number at this place: the number, or
/// null.
pub open spec fn member_tells_number(
    document: JsonView,
    i: int,
    name: Seq<char>,
    number: Option<int>,
) -> bool {
    document matches JsonView::Object(members) && 0 <= i < members.len() && members[i].0 == name
        && (match number {
        Some(n) => members[i].1 == JsonView::Int(n),
        None => members[i].1 == JsonView::Null,
    })
}

/// A number of thirty-two bits as a mathematical one.
pub open spec fn number(n: Option<u32>) -> Option<int> {
    match n {
        Some(m) => Some(m as int),
        None => None,
    }
}

/// A number of sixty-four bits as a mathematical one.
pub open spec fn wide_number(n: Option<i64>) -> Option<int> {
    match n {
        Some(m) => Some(m as int),
        None => None,
    }
}

// ---------------------------------------------------------------------------
// Tracks
// ---------------------------------------------------------------------------

/// Whether a document describes a video track.
pub open spec fn describes_video(document: JsonView, v: VideoTrack) -> bool {
    &&& is_object(document, 8)
    &&& has_member(document, 0, "track"@, JsonView::Str("video"@))
    &&& member_tells_text(document, 1, "codec"@, v.codec)
    &&& member_tells_number(document, 2, "width"@, number(v.width))
    &&& member_tells_number(document, 3, "height"@, number(v.height))
    &&& member_tells_text(document, 4, "pixelFormat"@, v.pixel_format)
    &&& member_tells_text(document, 5, "frameRate"@, v.frame_rate)
    &&& member_tells_text(document, 6, "bitrate"@, v.bitrate)
    &&& member_tells_text(document, 7, "duration"@, v.duration)
}

/// Whether a document describes an audio track; its number is told last, where
/// it has one.
pub open spec fn describes_audio(document: JsonView, a: AudioTrack) -> bool {
    &&& is_object(
        document,
        if a.index is Some {
            6
        } else {
            5
        },
    )
    &&& has_member(document, 0, "track"@, JsonView::Str("audio"@))
    &&& member_tells_text(document, 1, "codec"@, a.codec)
    &&& member_tells_number(document, 2, "channels"@, number(a.channels))
    &&& member_tells_text(document, 3, "language"@, a.language)
    &&& member_tells_text(document, 4, "title"@, a.title)
    &&& a.index matches Some(n) ==> has_member(document, 5, "index"@, JsonView::Int(n as int))
}

/// Whether a document describes a subtitle track; its number is told last, where
/// it has one.
pub open spec fn describes_subtitle(document: JsonView, s: SubtitleTrack) -> bool {
    &&& is_object(
        document,
        if s.index is Some {
            5
        } else {
            4
        },
    )
    &&& has_member(document, 0, "track"@, JsonView::Str("subtitle"@))
    &&& member_tells_text(document, 1, "codec"@, s.codec)
    &&& member_tells_text(document, 2, "language"@, s.language)
    &&& member_tells_text(document, 3, "title"@, s.title)
    &&& s.index matches Some(n) ==> has_member(document, 4, "index"@, JsonView::Int(n as int))
}

/// The tracks that a probe tells.
pub open spec fn told_tracks(document: JsonView) -> Seq<JsonView> {
    match document {
        JsonView::Object(members) => match members[1].1 {
            JsonView::Array(tracks) => tracks,
            _ => Seq::empty(),
        },
        _ => Seq::empty(),
    }
}

/// A probe tells every track of a stream, in order: the video where there is
/// one, then each audio track, then each subtitle track, and nothing else.
pub proof fn every_track_is_told(
    name: Option<Seq<char>>,
    data: StreamData,
    m: StreamMetadata,
    i: int,
    j: int,
)
    requires
        data.metadata == Some(m),
    ensures
        ({
            let tracks = told_tracks(probe_document(name, data));
            let video: int = if m.video is Some {
                1
            } else {
                0
            };
            let audios = m.audios@;
            let subtitles = m.subtitles@;
            &&& has_member(probe_document(name, data), 1, "streams"@, JsonView::Array(tracks))
            &&& tracks.len() == video + audios.len() + subtitles.len()
            &&& m.video matches Some(v) ==> describes_video(tracks[0], v)
            &&& 0 <= i < audios.len() ==> describes_audio(tracks[video + i], audios[i])
            &&& 0 <= j < subtitles.len() ==> describes_subtitle(
                tracks[video + audios.len() + j],
                subtitles[j],
            )
        }),
{
    let tracks = track_documents(data);
    assert(told_tracks(probe_document(name, data)) == tracks);
    let video: int = if m.video is Some {
        1
    } else {
        0
    };
    if 0 <= i < m.audios@.len() {
        assert(tracks[video + i] == audio_document(m.audios@[i]));
    }
    if 0 <= j < m.subtitles@.len() {
        assert(tracks[video + m.audios@.len() + j] == subtitle_document(m.subtitles@[j]));
    }
}

/// A probe of a stream without a description tells no tracks.
pub proof fn no_description_no_tracks(name: Option<Seq<char>>, data: StreamData)
    requires
        data.metadata is None,
    ensures
        has_member(
            probe_document(name, data),
            1,
            "streams"@,
            JsonView::Array(Seq::<JsonView>::empty()),
        ),
{
}

/// A probe tells the container first, then the tracks, and last what Torbox says
/// of the stream.
pub proof fn probes_tell_container_and_stream(name: Option<Seq<char>>, data: StreamData)
    ensures
        is_object(probe_document(name, data), 3),
        has_member(
            probe_document(name, data),
            0,
            "format"@,
            JsonView::Object(seq![("name"@, JsonView::Str(container_name(name)))]),
        ),
        has_member(probe_document(name, data), 2, "torbox"@, torbox_document(data)),
        is_object(torbox_document(data), 5),
        has_member(
            torbox_document(data),
            0,
            "needs_transcoding"@,
            match data.needs_transcoding {
                Some(b) => JsonView::Bool(b),
                None => JsonView::Null,
            },
        ),
        member_tells_text(torbox_document(data), 1, "presigned_token"@, data.presigned_token),
        member_tells_text(
            torbox_document(data),
            2,
            "open_subtitles_hash"@,
            data.open_subtitles_hash,
        ),
        has_member(
            torbox_document(data),
            3,
            "intro_information"@,
            intro_document(data.intro_information),
        ),
        member_tells_number(torbox_document(data), 4, "size"@, wide_number(data.size)),
{
}

/// An intro is told by its start, its end and its title; a missing one is null.
pub proof fn intros_are_told(intro: IntroInformation)
    ensures
        intro_document(None) == JsonView::Null,
        is_object(intro_document(Some(intro)), 3),
        has_member(
            intro_document(Some(intro)),
            0,
            "start_time"@,
            match intro.start_time {
                Some(d) => JsonView::Double(d),
                None => JsonView::Null,
            },
        ),
        has_member(
            intro_document(Some(intro)),
            1,
            "end_time"@,
            match intro.end_time {
                Some(d) => JsonView::Double(d),
                None => JsonView::Null,
            },
        ),
        member_tells_text(intro_document(Some(intro)), 2, "title"@, intro.title),
{
}

// ---------------------------------------------------------------------------
// Containers
// ---------------------------------------------------------------------------

/// The container of a file is told by the extension of its name, in either
/// case.
pub proof fn containers_follow_the_extension(stem: Seq<char>, ext: Seq<char>)
    requires
        !ext.contains('.'),
    ensures
        container_name(Some(stem + seq!['.'] + ext)) == container_of(lower(ext)),
        container_name(None) == "mov,mp4,m4a,3gp,3g2,mj2,matroska,webm"@,
{
    let name = lower(stem + seq!['.'] + ext);
    let low = lower(ext);
    let r = after_last_dot(name);
    extensions_follow_the_last_dot(name);
    let k = stem.len() as int;
    assert(name.len() == k + 1 + ext.len());
    assert(name[k] == '.');
    assert forall|i: int| 0 <= i < low.len() implies #[trigger] low[i] != '.' by {
        assert(ext.contains(ext[i]));
    }
    assert forall|i: int| k < i < name.len() implies #[trigger] name[i] != '.' by {
        assert(name[i] == low[i - k - 1]);
    }
    assert(r =~= name.subrange(name.len() - r.len(), name.len() as int));
    if r.len() > ext.len() {
        let at = r.len() - ext.len() - 1;
        assert(r[at] == name[k]);
        assert(r.contains('.'));
    }
    if r.len() < ext.len() {
        assert(name[name.len() - r.len() - 1] == '.');
    }
    assert(r =~= low);
    lemma_no_extension();
}

proof fn lemma_no_extension()
    ensures
        container_of(Seq::empty()) == "mov,mp4,m4a,3gp,3g2,mj2,matroska,webm"@,
{
    reveal_strlit("mkv");
    reveal_strlit("webm");
    reveal_strlit("mp4");
    reveal_strlit("m4v");
    reveal_strlit("m4a");
    reveal_strlit("mov");
    reveal_strlit("3gp");
    reveal_strlit("avi");
    reveal_strlit("ts");
    reveal_strlit("m2ts");
    reveal_strlit("mts");
    reveal_strlit("flv");
    reveal_strlit("wmv");
    reveal_strlit("asf");
    assert("mkv"@.len() == 3 && "webm"@.len() == 4 && "mp4"@.len() == 3 && "m4v"@.len() == 3
        && "m4a"@.len() == 3 && "mov"@.len() == 3 && "3gp"@.len() == 3 && "avi"@.len() == 3
        && "ts"@.len() == 2 && "m2ts"@.len() == 4 && "mts"@.len() == 3 && "flv"@.len() == 3
        && "wmv"@.len() == 3 && "asf"@.len() == 3);
}

/// Whether a text is one of the extensions of known containers.
pub open spec fn is_known_extension(ext: Seq<char>) -> bool {
    ||| ext == "mkv"@
    ||| ext == "webm"@
    ||| ext == "mp4"@
    ||| ext == "m4v"@
    ||| ext == "m4a"@
    ||| ext == "mov"@
    ||| ext == "3gp"@
    ||| ext == "avi"@
    ||| ext == "ts"@
    ||| ext == "m2ts"@
    ||| ext == "mts"@
    ||| ext == "flv"@
    ||| ext == "wmv"@
    ||| ext == "asf"@
}

/// The containers of the known extensions; every other extension gets the
/// widest name.
pub proof fn extensions_have_containers(ext: Seq<char>)
    ensures
        container_of("mkv"@) == "matroska,webm"@,
        container_of("webm"@) == "matroska,webm"@,
        container_of("mp4"@) == "mov,mp4,m4a,3gp,3g2,mj2"@,
        container_of("m4v"@) == "mov,mp4,m4a,3gp,3g2,mj2"@,
        container_of("m4a"@) == "mov,mp4,m4a,3gp,3g2,mj2"@,
        container_of("mov"@) == "mov,mp4,m4a,3gp,3g2,mj2"@,
        container_of("3gp"@) == "mov,mp4,m4a,3gp,3g2,mj2"@,
        container_of("avi"@) == "avi"@,
        container_of("ts"@) == "mpegts"@,
        container_of("m2ts"@) == "mpegts"@,
        container_of("mts"@) == "mpegts"@,
        container_of("flv"@) == "flv"@,
        container_of("wmv"@) == "asf"@,
        container_of("asf"@) == "asf"@,
        !is_known_extension(ext) ==> container_of(ext) == "mov,mp4,m4a,3gp,3g2,mj2,matroska,webm"@,
{
    reveal_strlit("mkv");
    reveal_strlit("webm");
    reveal_strlit("mp4");
    reveal_strlit("m4v");
    reveal_strlit("m4a");
    reveal_strlit("mov");
    reveal_strlit("3gp");
    reveal_strlit("avi");
    reveal_strlit("ts");
    reveal_strlit("m2ts");
    reveal_strlit("mts");
    reveal_strlit("flv");
    reveal_strlit("wmv");
    reveal_strlit("asf");
    assert("mp4"@[1] != "mkv"@[1]);
    assert("mp4"@.len() != "webm"@.len());
    assert("m4v"@[1] != "mkv"@[1]);
    assert("m4v"@.len() != "webm"@.len());
    assert("m4a"@[1] != "mkv"@[1]);
    assert("m4a"@.len() != "webm"@.len());
    assert("mov"@[1] != "mkv"@[1]);
    assert("mov"@.len() != "webm"@.len());
    assert("3gp"@[0] != "mkv"@[0]);
    assert("3gp"@.len() != "webm"@.len());
    assert("avi"@[0] != "mkv"@[0]);
    assert("avi"@.len() != "webm"@.len());
    assert("avi"@[0] != "mp4"@[0]);
    assert("avi"@[0] != "m4v"@[0]);
    assert("avi"@[0] != "m4a"@[0]);
    assert("avi"@[0] != "mov"@[0]);
    assert("avi"@[0] != "3gp"@[0]);
    assert("ts"@.len() != "mkv"@.len());
    assert("ts"@.len() != "webm"@.len());
    assert("ts"@.len() != "mp4"@.len());
    assert("ts"@.len() != "m4v"@.len());
    assert("ts"@.len() != "m4a"@.len());
    assert("ts"@.len() != "mov"@.len());
    assert("ts"@.len() != "3gp"@.len());
    assert("ts"@.len() != "avi"@.len());
    assert("m2ts"@.len() != "mkv"@.len());
    assert("m2ts"@[0] != "webm"@[0]);
    assert("m2ts"@.len() != "mp4"@.len());
    assert("m2ts"@.len() != "m4v"@.len());
    assert("m2ts"@.len() != "m4a"@.len());
    assert("m2ts"@.len() != "mov"@.len());
    assert("m2ts"@.len() != "3gp"@.len());
    assert("m2ts"@.len() != "avi"@.len());
    assert("mts"@[1] != "mkv"@[1]);
    assert("mts"@.len() != "webm"@.len());
    assert("mts"@[1] != "mp4"@[1]);
    assert("mts"@[1] != "m4v"@[1]);
    assert("mts"@[1] != "m4a"@[1]);
    assert("mts"@[1] != "mov"@[1]);
    assert("mts"@[0] != "3gp"@[0]);
    assert("mts"@[0] != "avi"@[0]);
    assert("flv"@[0] != "mkv"@[0]);
    assert("flv"@.len() != "webm"@.len());
    assert("flv"@[0] != "mp4"@[0]);
    assert("flv"@[0] != "m4v"@[0]);
    assert("flv"@[0] != "m4a"@[0]);
    assert("flv"@[0] != "mov"@[0]);
    assert("flv"@[0] != "3gp"@[0]);
    assert("flv"@[0] != "avi"@[0]);
    assert("flv"@.len() != "ts"@.len());
    assert("flv"@.len() != "m2ts"@.len());
    assert("flv"@[0] != "mts"@[0]);
    assert("wmv"@[0] != "mkv"@[0]);
    assert("wmv"@.len() != "webm"@.len());
    assert("wmv"@[0] != "mp4"@[0]);
    assert("wmv"@[0] != "m4v"@[0]);
    assert("wmv"@[0] != "m4a"@[0]);
    assert("wmv"@[0] != "mov"@[0]);
    assert("wmv"@[0] != "3gp"@[0]);
    assert("wmv"@[0] != "avi"@[0]);
    assert("wmv"@.len() != "ts"@.len());
    assert("wmv"@.len() != "m2ts"@.len());
    assert("wmv"@[0] != "mts"@[0]);
    assert("wmv"@[0] != "flv"@[0]);
    assert("asf"@[0] != "mkv"@[0]);
    assert("asf"@.len() != "webm"@.len());
    assert("asf"@[0] != "mp4"@[0]);
    assert("asf"@[0] != "m4v"@[0]);
    assert("asf"@[0] != "m4a"@[0]);
    assert("asf"@[0] != "mov"@[0]);
    assert("asf"@[0] != "3gp"@[0]);
    assert("asf"@[1] != "avi"@[1]);
    assert("asf"@.len() != "ts"@.len());
    assert("asf"@.len() != "m2ts"@.len());
    assert("asf"@[0] != "mts"@[0]);
    assert("asf"@[0] != "flv"@[0]);
}

// ---------------------------------------------------------------------------
// What this server is
// ---------------------------------------------------------------------------

/// The documents of the root and of the status.
pub proof fn server_says_what_it_is(version: Seq<char>, uptime: u64)
    ensures
        is_object(root_document(version), 3),
        has_member(
            root_document(version),
            0,
            "name"@,
            JsonView::Str("stremio-service (torbox gateway)"@),
        ),
        has_member(root_document(version), 1, "version"@, JsonView::Str(version)),
        has_member(root_document(version), 2, "ok"@, JsonView::Bool(true)),
        is_object(status_document(version, uptime), 4),
        has_member(status_document(version, uptime), 0, "ok"@, JsonView::Bool(true)),
        has_member(status_document(version, uptime), 1, "version"@, JsonView::Str(version)),
        has_member(status_document(version, uptime), 2, "uptime"@, JsonView::Int(uptime as int)),
        has_member(
            status_document(version, uptime),
            3,
            "transcoding"@,
            JsonView::Str("torbox"@),
        ),
{
}

/// A document of one member.
pub proof fn single_members(name: Seq<char>, value: JsonView)
    ensures
        is_object(single(name, value), 1),
        has_member(single(name, value), 0, name, value),
{
}

/// Clients reach the gateway at the public address where there is one, else at
/// the address and port that it listens on; an address with colons stands in
/// brackets.
pub proof fn addresses_are_told(cfg: GatewayConfig)
    ensures
        cfg.public_base_url matches Some(url) ==> base_url(cfg) == url@,
        cfg.public_base_url is None && !cfg.bind@.contains(':') ==> base_url(cfg) == "http://"@
            + cfg.bind@ + ":"@ + decimal(cfg.port as nat),
        cfg.public_base_url is None && cfg.bind@.contains(':') ==> base_url(cfg) == "http://"@ + (
        "["@ + cfg.bind@ + "]"@) + ":"@ + decimal(cfg.port as nat),
{
}

/// The settings: the address, the values and the one option.
pub proof fn settings_are_told(cfg: GatewayConfig)
    ensures
        is_object(settings_document(cfg), 3),
        has_member(settings_document(cfg), 0, "baseUrl"@, JsonView::Str(base_url(cfg))),
        has_member(settings_document(cfg), 1, "values"@, settings_values(cfg.force_transcode)),
        has_member(
            settings_document(cfg),
            2,
            "options"@,
            JsonView::Array(seq![settings_option()]),
        ),
{
}

/// The values of the settings.
pub proof fn setting_values_are_told(force: bool)
    ensures
        is_object(settings_values(force), 16),
        has_member(settings_values(force), 0, "serverVersion"@, JsonView::Str("4.20.17"@)),
        has_member(settings_values(force), 1, "appPath"@, JsonView::Str("/dev/null"@)),
        has_member(settings_values(force), 2, "cacheRoot"@, JsonView::Str("/dev/null"@)),
        has_member(settings_values(force), 3, "cacheSize"@, JsonView::Null),
        has_member(settings_values(force), 4, "btMaxConnections"@, JsonView::Int(0)),
        has_member(settings_values(force), 5, "btHandshakeTimeout"@, JsonView::Int(0)),
        has_member(settings_values(force), 6, "btRequestTimeout"@, JsonView::Int(0)),
        has_member(settings_values(force), 7, "btDownloadSpeedSoftLimit"@, JsonView::Int(0)),
        has_member(settings_values(force), 8, "btDownloadSpeedHardLimit"@, JsonView::Int(0)),
        has_member(settings_values(force), 9, "btMinPeersForStable"@, JsonView::Int(0)),
        has_member(settings_values(force), 10, "remoteHttps"@, JsonView::Str(""@)),
        has_member(settings_values(force), 11, "proxyStreamsEnabled"@, JsonView::Bool(false)),
        has_member(settings_values(force), 12, "transcodeProfile"@, JsonView::Null),
        has_member(settings_values(force), 13, "transcodingEnabled"@, JsonView::Bool(true)),
        has_member(settings_values(force), 14, "forceTranscoding"@, JsonView::Bool(force)),
        has_member(settings_values(force), 15, "torboxBacked"@, JsonView::Bool(true)),
{
}

/// The option of the settings: to transcode by Torbox or not.
pub proof fn setting_option_is_told()
    ensures
        is_object(settings_option(), 4),
        has_member(settings_option(), 0, "id"@, JsonView::Str("transcodeProfile"@)),
        has_member(settings_option(), 1, "label"@, JsonView::Str("TRANSCODE_PROFILE"@)),
        has_member(settings_option(), 2, "type"@, JsonView::Str("select"@)),
        settings_option() matches JsonView::Object(members) && members[3].0 == "selections"@ && (
        members[3].1 matches JsonView::Array(choices) && choices.len() == 2 && is_object(
            choices[0],
            2,
        ) && has_member(choices[0], 0, "name"@, JsonView::Str("Disabled"@)) && has_member(
            choices[0],
            1,
            "val"@,
            JsonView::Null,
        ) && is_object(choices[1], 2) && has_member(
            choices[1],
            0,
            "name"@,
            JsonView::Str("Torbox (HLS)"@),
        ) && has_member(choices[1], 1, "val"@, JsonView::Str("torbox"@))),
{
}

/// The hash of a video is told as it is, and an unknown one as an empty text.
pub proof fn video_hashes_are_told(data: StreamData)
    ensures
        open_sub_document(data) == JsonView::Object(
            seq![
                (
                    "result"@,
                    JsonView::Object(
                        seq![
                            (
                                "hash"@,
                                JsonView::Str(
                                    match data.open_subtitles_hash {
                                        Some(hash) => hash@,
                                        None => Seq::empty(),
                                    },
                                ),
                            ),
                        ],
                    ),
                ),
            ],
        ),
{
}

/// The hash of a video is told for a URL of this server alone.
pub proof fn video_hashes_need_a_local_url(target: (Seq<char>, int))
    ensures
        open_sub_source(Some(target)) == Ok::<(Seq<char>, int), ResponseView>(target),
        open_sub_source(None) matches Err(reply) && is_failure(
            reply,
            400,
            "videoUrl must point back at this server"@,
        ),
{
}

// ---------------------------------------------------------------------------
// Torrents
// ---------------------------------------------------------------------------

/// The answer to the creation of a torrent.
pub proof fn created_torrents_are_told(hash: Seq<char>, mapping: TorrentMapping)
    ensures
        is_object(created_document(hash, mapping), 6),
        has_member(created_document(hash, mapping), 0, "ok"@, JsonView::Bool(true)),
        has_member(created_document(hash, mapping), 1, "infoHash"@, JsonView::Str(hash)),
        has_member(
            created_document(hash, mapping),
            2,
            "fileIdx"@,
            JsonView::Int(mapping.file_id as int),
        ),
        member_tells_text(created_document(hash, mapping), 3, "fileName"@, mapping.file_name),
        member_tells_number(
            created_document(hash, mapping),
            4,
            "size"@,
            wide_number(mapping.size),
        ),
        has_member(
            created_document(hash, mapping),
            5,
            "torbox_id"@,
            JsonView::Int(mapping.torrent_id as int),
        ),
{
}

/// The progress of a torrent that is known by its hash in normal form: it is
/// there in full.
pub proof fn known_torrents_are_complete(map: Mappings, hash: Seq<char>, mapping: TorrentMapping)
    requires
        map.contains_key(lower(normalized_hash(hash))),
        map[lower(normalized_hash(hash))] == mapping,
    ensures
        ({
            let reply = torrent_stats_reply(map, hash);
            &&& reply.status == 200
            &&& reply.headers == seq![("content-type"@, "application/json"@)]
            &&& reply.body matches BodyView::Json(document) && {
                &&& is_object(document, 10)
                &&& has_member(document, 0, "infoHash"@, JsonView::Str(normalized_hash(hash)))
                &&& member_tells_text(document, 1, "name"@, mapping.file_name)
                &&& member_tells_number(document, 2, "downloaded"@, wide_number(mapping.size))
                &&& has_member(document, 3, "uploaded"@, JsonView::Int(0))
                &&& has_member(document, 4, "downloadSpeed"@, JsonView::Int(0))
                &&& has_member(document, 5, "uploadSpeed"@, JsonView::Int(0))
                &&& has_member(document, 6, "peers"@, JsonView::Int(0))
                &&& has_member(document, 7, "seeds"@, JsonView::Int(0))
                &&& has_member(
                    document,
                    8,
                    "progress"@,
                    JsonView::Double(Double { bits: 0x3ff0_0000_0000_0000 }),
                )
                &&& has_member(document, 9, "ready"@, JsonView::Bool(true))
            }
        }),
{
}

/// The progress of a file of a known torrent: it is there in full.
pub proof fn known_files_are_complete(
    map: Mappings,
    hash: Seq<char>,
    idx: i64,
    mapping: TorrentMapping,
)
    requires
        map.contains_key(lower(normalized_hash(hash))),
        map[lower(normalized_hash(hash))] == mapping,
    ensures
        ({
            let reply = file_stats_reply(map, hash, idx);
            &&& reply.status == 200
            &&& reply.headers == seq![("content-type"@, "application/json"@)]
            &&& reply.body matches BodyView::Json(document) && {
                &&& is_object(document, 7)
                &&& has_member(document, 0, "infoHash"@, JsonView::Str(normalized_hash(hash)))
                &&& has_member(document, 1, "fileIdx"@, JsonView::Int(idx as int))
                &&& member_tells_text(document, 2, "name"@, mapping.file_name)
                &&& member_tells_number(document, 3, "size"@, wide_number(mapping.size))
                &&& member_tells_number(document, 4, "downloaded"@, wide_number(mapping.size))
                &&& has_member(
                    document,
                    5,
                    "progress"@,
                    JsonView::Double(Double { bits: 0x3ff0_0000_0000_0000 }),
                )
                &&& has_member(document, 6, "ready"@, JsonView::Bool(true))
            }
        }),
{
}

/// A torrent that is not known is not found.
pub proof fn unknown_torrents_are_not_found(map: Mappings, hash: Seq<char>, idx: i64)
    requires
        !map.contains_key(lower(normalized_hash(hash))),
    ensures
        is_failure(torrent_stats_reply(map, hash), 404, "torrent not registered"@),
        is_failure(file_stats_reply(map, hash, idx), 404, "torrent not registered"@),
{
}

/// A file is answered with a redirect to the link that Torbox made, with the
/// name of the file where it has one; without a link, with what went wrong.
pub proof fn files_are_redirected_to(name: Seq<char>, link: Seq<char>, refusal: ResponseView)
    requires
        is_header_value(link),
    ensures
        stream_file_reply(None, Ok(link)) == (ResponseView {
            status: 307,
            headers: seq![("location"@, link)],
            body: BodyView::Empty,
        }),
        is_header_value(name) ==> stream_file_reply(Some(name), Ok(link)) == (ResponseView {
            status: 307,
            headers: seq![("location"@, link)].push(("x-original-filename"@, name)),
            body: BodyView::Empty,
        }),
        !is_header_value(name) ==> stream_file_reply(Some(name), Ok(link)) == stream_file_reply(
            None,
            Ok(link),
        ),
        stream_file_reply(Some(name), Err(refusal)) == refusal,
        stream_file_reply(None, Err(refusal)) == refusal,
{
}

// ---------------------------------------------------------------------------
// Requests to create a torrent
// ---------------------------------------------------------------------------

/// A body that decodes is what it decodes to; another is a bare magnet link
/// where its trimmed text begins like one, and says nothing otherwise. An empty
/// body says nothing.
pub proof fn bodies_are_read(raw: Seq<u8>, payload: CreatePayload)
    ensures
        raw.len() > 0 ==> payload_of(raw, Some(payload)) == payload@,
        raw.len() > 0 && valid_utf8(raw) && "magnet:"@.is_prefix_of(trimmed(decode_utf8(raw)))
            ==> payload_of(raw, None) == (CreatePayloadView {
            torrent: Some(trimmed(decode_utf8(raw))),
            magnet: None,
            info_hash: None,
        }),
        raw.len() == 0 || !valid_utf8(raw) || !"magnet:"@.is_prefix_of(trimmed(decode_utf8(raw)))
            ==> payload_of(raw, None) == (CreatePayloadView {
            torrent: None,
            magnet: None,
            info_hash: None,
        }),
        raw.len() == 0 ==> payload_of(raw, Some(payload)) == (CreatePayloadView {
            torrent: None,
            magnet: None,
            info_hash: None,
        }),
{
    if valid_utf8(raw) {
        beginnings_and_ends(trimmed(decode_utf8(raw)), "magnet:"@);
    }
}

/// The magnet link of a payload stands under `torrent`, or else under `magnet`;
/// an empty one is none.
pub proof fn links_have_two_names(payload: CreatePayloadView, link: Seq<char>)
    ensures
        payload.torrent == Some(link) && link.len() > 0 ==> payload_magnet(payload) == Some(link),
        payload.torrent == Some(link) && link.len() == 0 ==> payload_magnet(payload) is None,
        payload.torrent is None && payload.magnet == Some(link) && link.len() > 0
            ==> payload_magnet(payload) == Some(link),
        payload.torrent is None && payload.magnet == Some(link) && link.len() == 0
            ==> payload_magnet(payload) is None,
        payload.torrent is None && payload.magnet is None ==> payload_magnet(payload) is None,
        hash_of_link(None) is None,
        hash_of_link(Some(link)) == crate::gateway::routes::helpers::magnet_source(link),
{
}

/// The hash of a new torrent is the one in the path, unless that is missing or
/// empty; else the one of the magnet link; else the one of the payload. It is
/// brought to normal form.
pub proof fn hashes_come_in_order(
    path: Option<Seq<char>>,
    magnet: Option<Seq<char>>,
    linked: Option<Seq<char>>,
    given: Option<Seq<char>>,
    hash: Seq<char>,
)
    requires
        (path == Some(hash) && hash.len() > 0) || ((path is None || path == Some(
            Seq::<char>::empty(),
        )) && (linked == Some(hash) || (linked is None && given == Some(hash)))),
    ensures
        create_outcome(path, magnet, linked, given) == Ok::<CreateRequestView, ResponseView>(
            CreateRequestView {
                info_hash: normalized_hash(hash),
                magnet: match magnet {
                    Some(link) => link,
                    None => "magnet:?xt=urn:btih:"@ + lower(normalized_hash(hash)),
                },
            },
        ),
{
}

/// A request that names no hash is a bad one.
pub proof fn hashes_are_required(path: Option<Seq<char>>, magnet: Option<Seq<char>>)
    requires
        path is None || path == Some(Seq::<char>::empty()),
    ensures
        create_outcome(path, magnet, None, None) matches Err(reply) && is_failure(
            reply,
            400,
            "create: missing info_hash (provide a magnet URI in `torrent`/`magnet` or pass it via URL)"@,
        ),
{
}

} // verus!
