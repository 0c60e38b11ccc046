use stremio_service::json::Double;
use stremio_service::torbox::{
    ApiRequest, CachedData, CreateStreamOptions, Envelope, GetStreamDataOverrides, StreamKind,
    TorboxClient, TorboxError, TorrentFile, TorrentRecord,
};

fn pairs(list: &[(&str, &str)]) -> Vec<(String, String)> {
    list.iter().map(|(a, b)| (a.to_string(), b.to_string())).collect()
}

fn file(id: i64, name: &str, size: Option<i64>) -> TorrentFile {
    TorrentFile { id, name: Some(name.to_owned()), size, mimetype: None }
}

fn record(files: Vec<TorrentFile>) -> TorrentRecord {
    TorrentRecord {
        id: 1,
        hash: Some("ABC".to_owned()),
        name: None,
        size: None,
        download_state: None,
        progress: None,
        cached: None,
        files,
    }
}

fn check(request: ApiRequest, path: &str, query: &[(&str, &str)]) {
    assert_eq!(request.url, format!("https://api.torbox.app{path}"));
    assert_eq!(request.bearer, "KEY");
    assert_eq!(request.query, pairs(query));
    assert_eq!(request.form, None);
}

#[test]
fn requests_to_the_api() {
    let client = TorboxClient::new("KEY".to_owned());
    assert_eq!(client.token(), "KEY");
    assert_eq!(client.url("/x"), "https://api.torbox.app/x");
    check(
        client.check_cached("abc"),
        "/v1/api/torrents/checkcached",
        &[("hash", "abc"), ("format", "object"), ("list_files", "true")],
    );
    check(
        client.get_torrent(-5),
        "/v1/api/torrents/mylist",
        &[("id", "-5"), ("bypass_cache", "true")],
    );
    check(
        client.find_torrent_by_hash(),
        "/v1/api/torrents/mylist",
        &[("bypass_cache", "true"), ("limit", "1000")],
    );
    check(
        client.request_download_link(7, 8),
        "/v1/api/torrents/requestdl",
        &[("token", "KEY"), ("torrent_id", "7"), ("file_id", "8"), ("redirect", "false")],
    );
    check(
        client.create_stream(&CreateStreamOptions {
            id: 1,
            file_id: 2,
            kind: StreamKind::Torrent,
            audio_index: Some(3),
            subtitle_index: None,
            resolution_index: Some(4),
        }),
        "/v1/api/stream/createstream",
        &[
            ("id", "1"),
            ("file_id", "2"),
            ("type", "torrent"),
            ("chosen_audio_index", "3"),
            ("chosen_resolution_index", "4"),
        ],
    );
    check(
        client.get_stream_data(
            "pre",
            &GetStreamDataOverrides {
                audio_index: None,
                subtitle_index: Some(9),
                resolution_index: None,
            },
        ),
        "/v1/api/stream/getstreamdata",
        &[("presigned_token", "pre"), ("token", "KEY"), ("chosen_subtitle_index", "9")],
    );
    let create = client.create_torrent_from_magnet("magnet:?xt=urn:btih:abc");
    assert_eq!(create.url, "https://api.torbox.app/v1/api/torrents/createtorrent");
    assert_eq!(create.query, pairs(&[]));
    assert_eq!(
        create.form,
        Some(pairs(&[
            ("magnet", "magnet:?xt=urn:btih:abc"),
            ("seed", "3"),
            ("allow_zip", "false"),
            ("as_queued", "false"),
        ]))
    );
}

#[test]
fn envelopes_are_opened() {
    let ok = Envelope { success: true, error: None, detail: None, data: Some(5) };
    assert_eq!(TorboxClient::parse("200 OK", "", Ok(ok)).unwrap(), 5);

    let empty: Envelope<i32> = Envelope { success: true, error: None, detail: None, data: None };
    let error = TorboxClient::parse("200 OK", "", Ok(empty)).unwrap_err();
    assert!(matches!(error, TorboxError::NoCode { detail } if detail == "empty success body"));

    let refused = Envelope {
        success: false,
        error: Some("BAD_TOKEN".to_owned()),
        detail: Some("no".to_owned()),
        data: Some(5),
    };
    let error = TorboxClient::parse("403 Forbidden", "", Ok(refused)).unwrap_err();
    assert!(matches!(error, TorboxError::Api { code, detail } if code == "BAD_TOKEN" && detail == "no"));

    let unknown: Envelope<i32> =
        Envelope { success: false, error: None, detail: None, data: None };
    let error = TorboxClient::parse("500", "", Ok(unknown)).unwrap_err();
    assert!(
        matches!(error, TorboxError::Api { code, detail } if code == "UNKNOWN_ERROR" && detail == "no detail")
    );

    let bad: Result<Envelope<i32>, String> = Err("eof".to_owned());
    let error = TorboxClient::parse("502 Bad Gateway", "<html>", bad).unwrap_err();
    assert!(
        matches!(error, TorboxError::BadJson(m) if m == "status=502 Bad Gateway body=<html> err=eof")
    );
}

#[test]
fn the_cache_check_answers_for_a_hash() {
    let members = vec![("x".to_owned(), 1), ("abc".to_owned(), 2)];
    let env = Envelope {
        success: true,
        error: None,
        detail: None,
        data: Some(CachedData::Object(members)),
    };
    assert_eq!(TorboxClient::check_cached_reply(env, "abc").unwrap(), Some(2));
    let members = vec![("x".to_owned(), 1), ("y".to_owned(), 2)];
    let env = Envelope {
        success: true,
        error: None,
        detail: None,
        data: Some(CachedData::Object(members)),
    };
    assert_eq!(TorboxClient::check_cached_reply(env, "abc").unwrap(), Some(1));
    let env: Envelope<CachedData<i32>> =
        Envelope { success: true, error: None, detail: None, data: Some(CachedData::Array) };
    assert_eq!(TorboxClient::check_cached_reply(env, "abc").unwrap(), None);
    let env: Envelope<CachedData<i32>> =
        Envelope { success: true, error: None, detail: None, data: Some(CachedData::Other) };
    assert_eq!(TorboxClient::check_cached_reply(env, "abc").unwrap(), None);
    let env: Envelope<CachedData<i32>> =
        Envelope { success: false, error: None, detail: None, data: None };
    let error = TorboxClient::check_cached_reply(env, "abc").unwrap_err();
    assert!(
        matches!(error, TorboxError::Api { code, detail } if code == "UNKNOWN_ERROR" && detail.is_empty())
    );
}

#[test]
fn torrents_are_found_by_hash() {
    let mut first = record(vec![]);
    first.hash = None;
    let mut second = record(vec![]);
    second.id = 2;
    let mut third = record(vec![]);
    third.id = 3;
    let found = TorboxClient::find_torrent_by_hash_reply(vec![first, second, third], "aBc");
    assert_eq!(found.unwrap().id, 2);
    assert!(TorboxClient::find_torrent_by_hash_reply(vec![record(vec![])], "abd").is_none());
}

#[test]
fn readiness() {
    let mut r = record(vec![]);
    assert!(!r.is_ready());
    r.progress = Some(Double { bits: 0.5f64.to_bits() });
    assert!(!r.is_ready());
    r.progress = Some(Double { bits: 1.0f64.to_bits() });
    assert!(r.is_ready());
    r.progress = None;
    for state in ["cached", "completed", "uploading", "seeding", "stalled (UP)"] {
        r.download_state = Some(state.to_owned());
        assert!(r.is_ready(), "{state}");
    }
    r.download_state = Some("downloading".to_owned());
    assert!(!r.is_ready());
}

#[test]
fn the_largest_video_is_picked() {
    let r = record(vec![
        file(1, "movie.mkv", Some(10)),
        file(2, "extras.zip", Some(99)),
        file(3, "MOVIE2.MP4", Some(20)),
    ]);
    assert_eq!(r.pick_video_file().unwrap().id, 3);
    let r = record(vec![file(1, "a.zip", Some(1)), file(2, "b.zip", Some(2))]);
    assert_eq!(r.pick_video_file().unwrap().id, 2);
    // Of two equal files the later one is picked.
    let r = record(vec![file(1, "a.mkv", Some(5)), file(2, "b.mkv", Some(5))]);
    assert_eq!(r.pick_video_file().unwrap().id, 2);
    assert!(record(vec![]).pick_video_file().is_none());
}

#[test]
fn videos_are_told_by_type_or_name() {
    let mut f = file(1, "CLIP.WebM", None);
    assert!(f.is_video_like());
    f.name = None;
    assert!(!f.is_video_like());
    f.mimetype = Some("video/mp4".to_owned());
    assert!(f.is_video_like());
    f.mimetype = Some("audio/mp4".to_owned());
    assert!(!f.is_video_like());
    assert!(!file(1, "mkv", None).is_video_like());
}

#[test]
fn stream_kinds_have_names() {
    assert_eq!(StreamKind::Torrent.as_str(), "torrent");
    assert_eq!(StreamKind::Usenet.as_str(), "usenet");
    assert_eq!(StreamKind::Webdownload.as_str(), "webdownload");
}

#[test]
fn error_messages() {
    let api = TorboxError::Api { code: "A".to_owned(), detail: "b".to_owned() };
    assert_eq!(api.message(), "Torbox API error: A — b");
    assert_eq!(TorboxError::Http("x".to_owned()).message(), "Torbox HTTP error: x");
    assert_eq!(
        TorboxError::BadJson("x".to_owned()).message(),
        "Torbox returned malformed JSON: x"
    );
    assert_eq!(
        TorboxError::NoCode { detail: "x".to_owned() }.message(),
        "Torbox API error: x"
    );
}
