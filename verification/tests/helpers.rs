use stremio_service::config::GatewayConfig;
use stremio_service::gateway::routes::helpers::{
    build_magnet, create_stream_for, err_response, info_hash_from_magnet, parse_local_media_url,
    request_media, resolve_media_url, stream_created, torbox_to_response, url_encode,
};
use stremio_service::gateway::state::{AppState, TorrentMapping};
use stremio_service::json::Json;
use stremio_service::response::{Body, Response};
use stremio_service::torbox::{StreamData, StreamKind, TorboxClient, TorboxError};

const HEX: &str = "0123456789abcdef0123456789abcdef01234567";

fn message(reply: &Response) -> String {
    match &reply.body {
        Body::Json(Json::Object(members)) => match &members[0] {
            (name, Json::Str(text)) if name == "error" => text.clone(),
            other => panic!("{other:?}"),
        },
        other => panic!("{other:?}"),
    }
}

fn state() -> AppState {
    let cfg = GatewayConfig {
        torbox_api_key: "KEY".to_owned(),
        bind: "127.0.0.1".to_owned(),
        port: 11470,
        extra_allowed_origins: vec![],
        public_base_url: None,
        force_transcode: false,
        direct_hls: false,
    };
    AppState::new(TorboxClient::new("KEY".to_owned()), cfg)
}

fn mapping() -> TorrentMapping {
    TorrentMapping {
        torrent_id: 1,
        file_id: 2,
        file_name: Some("a.mkv".to_owned()),
        size: Some(3),
        last_used_at: 10,
        last_stream: None,
    }
}

fn stream(url: Option<&str>) -> StreamData {
    StreamData {
        hls_url: url.map(|u| u.to_owned()),
        domain: None,
        presigned_token: None,
        mimetype: None,
        size: None,
        needs_transcoding: None,
        is_transcoding: None,
        open_subtitles_hash: None,
        intro_information: None,
        metadata: None,
    }
}

#[test]
fn errors_say_why() {
    let reply = err_response(404, "gone");
    assert_eq!(reply.status, 404);
    assert_eq!(message(&reply), "gone");
    assert_eq!(
        reply.headers,
        vec![("content-type".to_owned(), "application/json".to_owned())]
    );
}

#[test]
fn upstream_errors_have_a_status() {
    for (code, status) in [
        ("NO_AUTH", 401),
        ("BAD_TOKEN", 401),
        ("PLAN_RESTRICTED_FEATURE", 402),
        ("ITEM_NOT_FOUND", 404),
        ("OTHER", 502),
    ] {
        let error = TorboxError::Api { code: code.to_owned(), detail: "d".to_owned() };
        let reply = torbox_to_response(error);
        assert_eq!(reply.status, status);
        assert_eq!(message(&reply), format!("Torbox API error: {code} — d"));
    }
    assert_eq!(torbox_to_response(TorboxError::Http("x".to_owned())).status, 502);
    assert_eq!(torbox_to_response(TorboxError::BadJson("x".to_owned())).status, 502);
    assert_eq!(torbox_to_response(TorboxError::NoCode { detail: "x".to_owned() }).status, 502);
}

#[test]
fn magnets_give_their_hash() {
    let magnet = format!("magnet:?dn=x&xt=urn:btih:{}&tr=y", HEX.to_uppercase());
    assert_eq!(info_hash_from_magnet(&magnet).as_deref(), Some(HEX));
    assert_eq!(info_hash_from_magnet(&build_magnet(HEX)).as_deref(), Some(HEX));
    assert_eq!(
        info_hash_from_magnet(&format!("magnet:?xt=urn%3Abtih%3A{HEX}")).as_deref(),
        Some(HEX)
    );
    assert_eq!(
        info_hash_from_magnet("magnet:?xt=urn:btih:77777777777777777777777777777777").as_deref(),
        Some("ffffffffffffffffffffffffffffffffffffffff")
    );
    assert_eq!(info_hash_from_magnet("magnet:?xt=urn:btih:xyz"), None);
    assert_eq!(
        info_hash_from_magnet(&format!("magnet:?xt=urn:btih:xyz&xt=urn:btih:{HEX}")).as_deref(),
        Some(HEX)
    );
    assert_eq!(info_hash_from_magnet("magnet:?xt=urn:sha1:abc"), None);
    assert_eq!(info_hash_from_magnet("http://x/?xt=urn:btih:abc"), None);
    assert_eq!(info_hash_from_magnet("not a url"), None);
}

#[test]
fn magnets_are_built_in_lower_case() {
    assert_eq!(build_magnet("ABC"), "magnet:?xt=urn:btih:abc");
}

#[test]
fn media_urls_of_this_server() {
    let url = format!("http://localhost:11470/{}/3", HEX.to_uppercase());
    assert_eq!(parse_local_media_url(&url), Some((HEX.to_owned(), 3)));
    assert_eq!(parse_local_media_url(&format!("http://x/{HEX}/-1/more")), Some((HEX.to_owned(), -1)));
    assert_eq!(parse_local_media_url(&format!("http://x/{HEX}/a")), None);
    assert_eq!(parse_local_media_url(&format!("http://x/{HEX}")), None);
    assert_eq!(parse_local_media_url("http://x/short/1"), None);
    assert_eq!(parse_local_media_url("magnet:?xt=urn:btih:abc"), None);
    assert_eq!(parse_local_media_url("::"), None);
}

#[test]
fn media_urls_of_either_kind() {
    assert_eq!(
        resolve_media_url(&format!("http://x/{HEX}/4")),
        Some((HEX.to_owned(), 4))
    );
    assert_eq!(resolve_media_url(&build_magnet(HEX)), Some((HEX.to_owned(), 0)));
    assert_eq!(resolve_media_url("https://example.com/movie.mp4"), None);
}

#[test]
fn requests_need_a_media_url() {
    for missing in [None, Some(String::new())] {
        let reply = request_media(&missing, "").unwrap_err();
        assert_eq!(reply.status, 400);
        assert_eq!(message(&reply), "missing mediaURL");
    }
    let reply = request_media(&Some("https://x/y".to_owned()), "!").unwrap_err();
    assert_eq!(reply.status, 400);
    assert_eq!(
        message(&reply),
        "Could not derive a Torbox source from mediaURL=https://x/y!"
    );
    let source = request_media(&Some(build_magnet(HEX)), "").unwrap();
    assert_eq!(source, (HEX.to_owned(), 0));
}

#[test]
fn values_are_percent_encoded() {
    assert_eq!(url_encode("a b.ts"), "a%20b%2Ets");
    assert_eq!(url_encode("é/?"), "%C3%A9%2F%3F");
    assert_eq!(url_encode("AZaz09"), "AZaz09");
}

#[test]
fn streams_are_asked_for() {
    let options = create_stream_for(&mapping(), Some(1), None, Some(2));
    assert_eq!(options.id, 1);
    assert_eq!(options.file_id, 2);
    assert!(matches!(options.kind, StreamKind::Torrent));
    assert_eq!(options.audio_index, Some(1));
    assert_eq!(options.subtitle_index, None);
    assert_eq!(options.resolution_index, Some(2));
}

#[test]
fn streams_are_noted() {
    let mut s = state();
    s.put_mapping(HEX, mapping());
    assert!(stream_created(&mut s, HEX, Ok(stream(Some("u"))), 99).is_none());
    let kept = s.get_mapping(HEX).unwrap();
    assert_eq!(kept.last_used_at, 99);
    assert_eq!(kept.last_stream.as_ref().unwrap().hls_url.as_deref(), Some("u"));
    assert_eq!(kept.file_id, 2);

    let reply = stream_created(&mut s, HEX, Err(TorboxError::Http("x".to_owned())), 100).unwrap();
    assert_eq!(reply.status, 502);
    assert_eq!(s.get_mapping(HEX).unwrap().last_used_at, 99);

    assert!(stream_created(&mut s, "unknown", Ok(stream(None)), 1).is_none());
    assert!(s.get_mapping("unknown").is_none());
}

#[test]
fn mappings_are_learnt_and_forgotten() {
    let mut s = state();
    assert!(s.get_mapping(HEX).is_none());
    s.put_mapping(&HEX.to_uppercase(), mapping());
    assert_eq!(s.get_mapping(HEX).unwrap().torrent_id, 1);
    s.put_mapping("other", mapping());
    s.remove_mapping(HEX);
    assert!(s.get_mapping(HEX).is_none());
    assert!(s.get_mapping("OTHER").is_some());
}
