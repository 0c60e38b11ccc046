use stremio_service::config::GatewayConfig;
use stremio_service::gateway::routes::meta::{
    casting, container_from_filename, device_info, heartbeat, network_info, open_sub_hash,
    open_sub_hash_request, probe, probe_request, probe_source, root, settings_get, settings_post, status,
    uptime_seconds, OpenSubHashQuery, ProbeQuery,
};
use stremio_service::gateway::routes::stream::{
    create_reply, create_request, create_request_with, file_stats, parse_create_payload,
    remove_torrent, stream_file, torrent_stats, CreatePayload,
};
use stremio_service::gateway::state::{AppState, TorrentMapping};
use stremio_service::json::{Double, Json};
use stremio_service::response::{Body, Response};
use stremio_service::torbox::{
    AudioTrack, IntroInformation, StreamData, StreamMetadata, SubtitleTrack, TorboxClient,
    TorboxError, VideoTrack,
};

const HEX: &str = "0123456789abcdef0123456789abcdef01234567";

fn value(json: &Json) -> serde_json::Value {
    match json {
        Json::Null => serde_json::Value::Null,
        Json::Bool(b) => serde_json::Value::from(*b),
        Json::Int(n) => serde_json::Value::from(*n),
        Json::UInt(n) => serde_json::Value::from(*n),
        Json::Double(d) => serde_json::Value::from(f64::from_bits(d.bits)),
        Json::Str(s) => serde_json::Value::from(s.clone()),
        Json::Array(items) => serde_json::Value::Array(items.iter().map(value).collect()),
        Json::Object(members) => serde_json::Value::Object(
            members.iter().map(|(name, member)| (name.clone(), value(member))).collect(),
        ),
    }
}

fn document(reply: &Response) -> serde_json::Value {
    match &reply.body {
        Body::Json(json) => value(json),
        other => panic!("{other:?}"),
    }
}

fn expect(reply: &Response, status: u16, text: &str) {
    assert_eq!(reply.status, status);
    assert_eq!(document(reply), serde_json::from_str::<serde_json::Value>(text).unwrap());
}

fn cfg() -> GatewayConfig {
    GatewayConfig {
        torbox_api_key: "KEY".to_owned(),
        bind: "0.0.0.0".to_owned(),
        port: 11470,
        extra_allowed_origins: vec![],
        public_base_url: None,
        force_transcode: true,
        direct_hls: false,
    }
}

fn mapping() -> TorrentMapping {
    TorrentMapping {
        torrent_id: 1,
        file_id: 2,
        file_name: Some("Film.MKV".to_owned()),
        size: Some(3),
        last_used_at: 0,
        last_stream: None,
    }
}

fn stream() -> StreamData {
    StreamData {
        hls_url: None,
        domain: None,
        presigned_token: Some("pre".to_owned()),
        mimetype: None,
        size: Some(9),
        needs_transcoding: Some(true),
        is_transcoding: None,
        open_subtitles_hash: Some("aa".to_owned()),
        intro_information: Some(IntroInformation {
            start_time: Some(Double { bits: 1.5f64.to_bits() }),
            end_time: None,
            title: None,
        }),
        metadata: Some(StreamMetadata {
            video: Some(VideoTrack {
                codec: Some("hevc".to_owned()),
                width: Some(1920),
                height: None,
                frame_rate: None,
                bitrate: None,
                duration: None,
                pixel_format: None,
            }),
            audios: vec![AudioTrack {
                index: Some(1),
                codec: Some("aac".to_owned()),
                channels: Some(2),
                language: None,
                language_full: None,
                title: None,
                default: None,
            }],
            subtitles: vec![SubtitleTrack {
                index: None,
                codec: None,
                language: Some("en".to_owned()),
                language_full: None,
                title: None,
                default: None,
            }],
        }),
    }
}

#[test]
fn settings_have_the_expected_shape() {
    let text = r#"{
        "baseUrl": "http://0.0.0.0:11470",
        "values": {
            "serverVersion": "4.20.17", "appPath": "/dev/null", "cacheRoot": "/dev/null",
            "cacheSize": null, "btMaxConnections": 0, "btHandshakeTimeout": 0,
            "btRequestTimeout": 0, "btDownloadSpeedSoftLimit": 0, "btDownloadSpeedHardLimit": 0,
            "btMinPeersForStable": 0, "remoteHttps": "", "proxyStreamsEnabled": false,
            "transcodeProfile": null, "transcodingEnabled": true, "forceTranscoding": true,
            "torboxBacked": true
        },
        "options": [{
            "id": "transcodeProfile", "label": "TRANSCODE_PROFILE", "type": "select",
            "selections": [
                { "name": "Disabled", "val": null },
                { "name": "Torbox (HLS)", "val": "torbox" }
            ]
        }]
    }"#;
    expect(&settings_get(&cfg()), 200, text);
    let mut public = cfg();
    public.public_base_url = Some("https://x".to_owned());
    assert_eq!(document(&settings_get(&public))["baseUrl"], "https://x");
    let mut v6 = cfg();
    v6.bind = "::1".to_owned();
    assert_eq!(document(&settings_get(&v6))["baseUrl"], "http://[::1]:11470");
    expect(&settings_post(), 200, r#"{ "success": true }"#);
}

#[test]
fn what_the_server_is() {
    expect(
        &root("1.2.3"),
        200,
        r#"{ "name": "stremio-service (torbox gateway)", "version": "1.2.3", "ok": true }"#,
    );
    expect(
        &status("1.2.3", 4),
        200,
        r#"{ "ok": true, "version": "1.2.3", "uptime": 4, "transcoding": "torbox" }"#,
    );
    expect(&network_info(), 200, r#"{ "availableInterfaces": [] }"#);
    expect(&device_info(), 200, r#"{ "availableHardwareAccelerations": ["torbox"] }"#);
    expect(&casting(), 200, "[]");
    let beat = heartbeat();
    assert_eq!(beat.status, 200);
    assert!(matches!(beat.body, Body::Text(text) if text == "ok"));
    assert_eq!(uptime_seconds(500, 2_499), 1);
    assert_eq!(uptime_seconds(500, 2_500), 2);
    assert_eq!(uptime_seconds(500, 0), 0);
}

#[test]
fn containers_by_extension() {
    for (name, container) in [
        ("a.mkv", "matroska,webm"),
        ("a.WEBM", "matroska,webm"),
        ("a.mp4", "mov,mp4,m4a,3gp,3g2,mj2"),
        ("a.3gp", "mov,mp4,m4a,3gp,3g2,mj2"),
        ("a.avi", "avi"),
        ("a.m2ts", "mpegts"),
        ("a.flv", "flv"),
        ("a.asf", "asf"),
        ("mkv", "matroska,webm"),
        ("a.xyz", "mov,mp4,m4a,3gp,3g2,mj2,matroska,webm"),
    ] {
        assert_eq!(container_from_filename(Some(name)), container);
    }
    assert_eq!(
        container_from_filename(None),
        "mov,mp4,m4a,3gp,3g2,mj2,matroska,webm"
    );
}

#[test]
fn probes_describe_the_tracks() {
    let text = r#"{
        "format": { "name": "matroska,webm" },
        "streams": [
            { "track": "video", "codec": "hevc", "width": 1920, "height": null,
              "pixelFormat": null, "frameRate": null, "bitrate": null, "duration": null },
            { "track": "audio", "codec": "aac", "channels": 2, "language": null, "title": null,
              "index": 1 },
            { "track": "subtitle", "codec": null, "language": "en", "title": null }
        ],
        "torbox": {
            "needs_transcoding": true, "presigned_token": "pre", "open_subtitles_hash": "aa",
            "intro_information": { "start_time": 1.5, "end_time": null, "title": null },
            "size": 9
        }
    }"#;
    expect(&probe(&mapping(), &stream()), 200, text);
    let mut bare = stream();
    bare.metadata = None;
    bare.intro_information = None;
    let reply = probe(&mapping(), &bare);
    assert_eq!(document(&reply)["streams"], serde_json::Value::Array(vec![]));
    assert_eq!(document(&reply)["torbox"]["intro_information"], serde_json::Value::Null);
}

#[test]
fn probes_reuse_the_last_description() {
    let mut kept = mapping();
    assert!(probe_source(&kept).is_none());
    kept.last_stream = Some(stream());
    assert_eq!(probe_source(&kept).unwrap().size, Some(9));
}

#[test]
fn probes_name_a_file() {
    let query = ProbeQuery { media_url: Some(format!("http://x/{HEX}/5")) };
    assert_eq!(probe_request(&query).unwrap(), (HEX.to_owned(), 5));
    expect(
        &probe_request(&ProbeQuery { media_url: None }).unwrap_err(),
        400,
        r#"{ "error": "missing mediaURL" }"#,
    );
    expect(
        &probe_request(&ProbeQuery { media_url: Some("http://x/y".to_owned()) }).unwrap_err(),
        400,
        r#"{ "error": "Could not derive a Torbox source from mediaURL=http://x/y. This gateway only transcodes torrents added through itself." }"#,
    );
}

#[test]
fn subtitle_hashes() {
    let query = OpenSubHashQuery { video_url: Some(format!("http://x/{HEX}/5")) };
    assert_eq!(open_sub_hash_request(&query).unwrap(), (HEX.to_owned(), 5));
    expect(
        &open_sub_hash_request(&OpenSubHashQuery { video_url: None }).unwrap_err(),
        400,
        r#"{ "error": "missing videoUrl" }"#,
    );
    let magnet = format!("magnet:?xt=urn:btih:{HEX}");
    expect(
        &open_sub_hash_request(&OpenSubHashQuery { video_url: Some(magnet) }).unwrap_err(),
        400,
        r#"{ "error": "videoUrl must point back at this server" }"#,
    );
    expect(&open_sub_hash(&stream()), 200, r#"{ "result": { "hash": "aa" } }"#);
    let mut unknown = stream();
    unknown.open_subtitles_hash = None;
    expect(&open_sub_hash(&unknown), 200, r#"{ "result": { "hash": "" } }"#);
}

#[test]
fn bodies_of_create_requests() {
    let decoded = CreatePayload {
        torrent: None,
        magnet: Some("m".to_owned()),
        info_hash: Some("h".to_owned()),
    };
    let payload = parse_create_payload(b"{}", Some(decoded));
    assert_eq!(payload.magnet.as_deref(), Some("m"));
    let payload = parse_create_payload(b" magnet:?xt=1\n", None);
    assert_eq!(payload.torrent.as_deref(), Some("magnet:?xt=1"));
    for raw in [&b""[..], b"hello", b"\xff\xfe", b"MAGNET:x"] {
        let payload = parse_create_payload(raw, None);
        assert!(payload.torrent.is_none());
        assert!(payload.magnet.is_none());
        assert!(payload.info_hash.is_none());
    }
}

fn payload(torrent: Option<&str>, magnet: Option<&str>, hash: Option<&str>) -> CreatePayload {
    CreatePayload {
        torrent: torrent.map(|s| s.to_owned()),
        magnet: magnet.map(|s| s.to_owned()),
        info_hash: hash.map(|s| s.to_owned()),
    }
}

#[test]
fn what_to_create() {
    let link = format!("magnet:?xt=urn:btih:{HEX}&dn=x");
    let request = create_request(None, payload(Some(&link), Some("other"), None)).unwrap();
    assert_eq!(request.info_hash, HEX);
    assert_eq!(request.magnet, link);

    let request =
        create_request(Some("ABCDE".to_owned()), payload(None, Some(&link), None)).unwrap();
    assert_eq!(request.info_hash, "abcde");
    assert_eq!(request.magnet, link);

    let request =
        create_request(Some(String::new()), payload(Some(""), Some(&link), Some("XY"))).unwrap();
    assert_eq!(request.info_hash, "xy");
    assert_eq!(request.magnet, "magnet:?xt=urn:btih:xy");

    expect(
        &create_request(None, payload(None, None, None)).unwrap_err(),
        400,
        r#"{ "error": "create: missing info_hash (provide a magnet URI in `torrent`/`magnet` or pass it via URL)" }"#,
    );
    expect(
        &create_request(None, payload(Some("magnet:?dn=x"), None, None)).unwrap_err(),
        400,
        r#"{ "error": "create: missing info_hash (provide a magnet URI in `torrent`/`magnet` or pass it via URL)" }"#,
    );
    let request =
        create_request_with(None, payload(Some("m"), None, None), Some("AB".to_owned())).unwrap();
    assert_eq!(request.info_hash, "ab");
    assert_eq!(request.magnet, "m");
}

#[test]
fn created_torrents_are_described() {
    expect(
        &create_reply(HEX, &mapping()),
        200,
        &format!(
            r#"{{ "ok": true, "infoHash": "{HEX}", "fileIdx": 2, "fileName": "Film.MKV",
                 "size": 3, "torbox_id": 1 }}"#
        ),
    );
}

#[test]
fn progress_follows_the_mappings() {
    let mut state = AppState::new(TorboxClient::new("KEY".to_owned()), cfg());
    let upper = HEX.to_uppercase();
    let missing = r#"{ "error": "torrent not registered" }"#;
    expect(&torrent_stats(&state, &upper), 404, missing);
    expect(&file_stats(&state, &upper, 1), 404, missing);
    state.put_mapping(HEX, mapping());
    expect(
        &torrent_stats(&state, &upper),
        200,
        &format!(
            r#"{{ "infoHash": "{HEX}", "name": "Film.MKV", "downloaded": 3, "uploaded": 0,
                 "downloadSpeed": 0, "uploadSpeed": 0, "peers": 0, "seeds": 0, "progress": 1.0,
                 "ready": true }}"#
        ),
    );
    expect(
        &file_stats(&state, &upper, 8),
        200,
        &format!(
            r#"{{ "infoHash": "{HEX}", "fileIdx": 8, "name": "Film.MKV", "size": 3,
                 "downloaded": 3, "progress": 1.0, "ready": true }}"#
        ),
    );
    for _ in 0..2 {
        expect(&remove_torrent(&mut state, &upper), 200, r#"{ "ok": true }"#);
        expect(&torrent_stats(&state, &upper), 404, missing);
    }
}

#[test]
fn files_are_redirected() {
    let reply = stream_file(&mapping(), Ok("https://cdn/x".to_owned()));
    assert_eq!(reply.status, 307);
    assert_eq!(
        reply.headers,
        vec![
            ("location".to_owned(), "https://cdn/x".to_owned()),
            ("x-original-filename".to_owned(), "Film.MKV".to_owned()),
        ]
    );
    assert!(matches!(reply.body, Body::Empty));
    let mut odd = mapping();
    odd.file_name = Some("a\nb".to_owned());
    assert_eq!(stream_file(&odd, Ok("u".to_owned())).headers.len(), 1);
    odd.file_name = None;
    assert_eq!(stream_file(&odd, Ok("u".to_owned())).headers.len(), 1);
    let error = TorboxError::Api { code: "ITEM_NOT_FOUND".to_owned(), detail: "d".to_owned() };
    expect(
        &stream_file(&mapping(), Err(error)),
        404,
        r#"{ "error": "Torbox API error: ITEM_NOT_FOUND — d" }"#,
    );
    assert_eq!(stream_file(&mapping(), Ok("a\rb".to_owned())).status, 500);
}
