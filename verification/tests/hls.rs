use stremio_service::bindings::UrlParts;
use stremio_service::gateway::routes::hls::{
    file_stream, is_playlist_name, playlist, playlist_request, redirect_to_segment, segment,
    track_choice, ConvertCache, HlsQuery, PlaylistFetch, Warmup, WarmupAction, CONVERT_TTL,
    WARMUP_RETRIES,
};
use stremio_service::gateway::routes::playlist::{
    build_segment_prefix, extract_last_path_segment, join_segment_url, kind_of_line,
    last_segment_of, line_for_segment, resolve_relative, rewrite_line, rewrite_playlist,
    segment_join_outcome, LineKind,
};
use stremio_service::gateway::routes::playlist::{
    is_clean_line, keep_line, route_tag, route_value,
};
use stremio_service::gateway::routes::token::{
    cut_at_mark, has_marks, has_mention, hide_mention, is_token_free, strip_token, without_token,
};
use stremio_service::json::Json;
use stremio_service::response::{Body, Response};
use stremio_service::torbox::StreamData;

const HEX: &str = "0123456789abcdef0123456789abcdef01234567";
const UPSTREAM: &str = "https://cdn.example/stream/master.m3u8?token=abc&id=7";

fn stream(url: Option<&str>) -> StreamData {
    StreamData {
        hls_url: url.map(|u| u.to_owned()),
        domain: None,
        presigned_token: None,
        mimetype: None,
        size: None,
        needs_transcoding: None,
        is_transcoding: None,
        open_subtitles_hash: None,
        intro_information: None,
        metadata: None,
    }
}

fn message(reply: &Response) -> String {
    match &reply.body {
        Body::Json(Json::Object(members)) => match &members[0] {
            (_, Json::Str(text)) => text.clone(),
            other => panic!("{other:?}"),
        },
        other => panic!("{other:?}"),
    }
}

fn location(reply: &Response) -> String {
    assert_eq!(reply.headers[0].0, "location");
    reply.headers[0].1.clone()
}

fn pairs(list: &[(&str, &str)]) -> Vec<(String, String)> {
    list.iter().map(|(a, b)| (a.to_string(), b.to_string())).collect()
}

#[test]
fn tokens_are_stripped() {
    assert_eq!(strip_token("https://x/a?token=1"), "https://x/a");
    assert_eq!(strip_token("https://x/a?token=1&b=2&token=3&c=%26"), "https://x/a?b=2&c=%26");
    assert_eq!(strip_token("https://x/a?b=2"), "https://x/a?b=2");
    assert_eq!(strip_token("https://x/a?b=2&token=1#frag"), "https://x/a?b=2#frag");
    assert_eq!(strip_token("https://x/a?token=1#frag"), "https://x/a#frag");
    assert_eq!(strip_token("https://x/a?Token=1"), "https://x/a?Token=1");
    assert_eq!(strip_token("https://x/a"), "https://x/a");
    assert_eq!(strip_token("https://x"), "https://x/");
    assert_eq!(strip_token("not a url?token=1"), "not a url?token=1");
}

#[test]
fn pairs_without_token() {
    let kept = without_token(&pairs(&[("token", "1"), ("a", "token"), ("token", "2"), ("b", "")]));
    assert_eq!(kept, pairs(&[("a", "token"), ("b", "")]));
}

#[test]
fn names_of_files() {
    assert_eq!(extract_last_path_segment("https://x/a/b.ts?q=1"), "b.ts");
    assert_eq!(extract_last_path_segment("https://x"), "");
    assert_eq!(extract_last_path_segment("magnet:?xt=1"), "magnet:?xt=1");
    assert_eq!(extract_last_path_segment("b.ts"), "b.ts");
    let parts = UrlParts {
        text: "https://x/a/b".to_owned(),
        host: Some("x".to_owned()),
        port: None,
        query: None,
        scheme: "https".to_owned(),
        path_segments: Some(vec!["a".to_owned(), "b".to_owned()]),
        query_pairs: vec![],
        fragment: None,
    };
    assert_eq!(last_segment_of(&parts).as_deref(), Some("b"));
}

#[test]
fn lines_are_resolved() {
    assert_eq!(resolve_relative(UPSTREAM, "0.ts"), Ok("https://cdn.example/stream/0.ts".to_owned()));
    assert_eq!(resolve_relative(UPSTREAM, "/r/0.ts"), Ok("https://cdn.example/r/0.ts".to_owned()));
    assert_eq!(resolve_relative("bad", "http://y/ z"), Ok("http://y/ z".to_owned()));
    assert_eq!(resolve_relative("bad", "0.ts"), Err(()));
}

#[test]
fn segments_are_joined() {
    assert_eq!(
        join_segment_url(UPSTREAM, "0.ts"),
        Ok("https://cdn.example/stream/0.ts".to_owned())
    );
    assert_eq!(
        join_segment_url("bad", "0.ts"),
        Err("bad upstream URL: relative URL without a base".to_owned())
    );
    assert_eq!(
        join_segment_url("https://x/", "//[::"),
        Err("could not join segment: invalid IPv6 address".to_owned())
    );
    assert_eq!(
        segment_join_outcome(Err("p".to_owned()), Err("j".to_owned())),
        Err("bad upstream URL: p".to_owned())
    );
}

#[test]
fn prefixes_of_segments() {
    assert_eq!(build_segment_prefix("id", None), "/hlsv2/id");
    assert_eq!(build_segment_prefix("id", Some("https://x//")), "https://x/hlsv2/id");
}

#[test]
fn kinds_of_lines() {
    assert_eq!(kind_of_line(""), LineKind::Blank);
    assert_eq!(kind_of_line("  \t"), LineKind::Blank);
    assert_eq!(kind_of_line("  #EXTINF:4,"), LineKind::Tag);
    assert_eq!(kind_of_line(" low.m3u8"), LineKind::Playlist);
    assert_eq!(kind_of_line("low.m3u8 "), LineKind::Segment);
    assert_eq!(kind_of_line("0.ts"), LineKind::Segment);
}

#[test]
fn lines_are_rewritten() {
    assert_eq!(rewrite_line("  # note", UPSTREAM, "/p"), "  # note");
    assert_eq!(rewrite_line("a b.ts?token=1", UPSTREAM, "/p"), "/p/a%2520b%2Ets");
    assert_eq!(rewrite_line(" 0.ts", UPSTREAM, "/p"), "/p/0%2Ets");
    assert_eq!(line_for_segment("/p", "é"), "/p/%C3%A9");
    assert_eq!(
        rewrite_line("low.m3u8", UPSTREAM, "/p"),
        "https://cdn.example/stream/low.m3u8"
    );
    assert_eq!(
        rewrite_line("https://cdn.example/x?token=1&f=low.m3u8", UPSTREAM, "/p"),
        "https://cdn.example/x?f=low.m3u8"
    );
    assert_eq!(rewrite_line("0.ts", "bad", "/p"), "0.ts");
}

#[test]
fn playlists_are_rewritten() {
    let body = "#EXTM3U\r\n\r\n#EXTINF:4,\r\n0.ts?token=1\r\nlow.m3u8";
    assert_eq!(
        rewrite_playlist(body, UPSTREAM, "id", Some("https://gw.example/")),
        "#EXTM3U\n\n#EXTINF:4,\nhttps://gw.example/hlsv2/id/0%2Ets\n\
         https://cdn.example/stream/low.m3u8\n"
    );
    assert_eq!(rewrite_playlist("", UPSTREAM, "id", None), "");
}

#[test]
fn tracks_are_chosen() {
    assert_eq!(track_choice(Some(1), &Some("2".to_owned())), Some(1));
    assert_eq!(track_choice(None, &Some("2".to_owned())), Some(2));
    assert_eq!(track_choice(None, &Some("x".to_owned())), None);
    assert_eq!(track_choice(None, &None), None);
}

#[test]
fn playlist_requests() {
    let query = HlsQuery {
        media_url: Some(format!("http://localhost:11470/{HEX}/2")),
        audio: Some("3".to_owned()),
        subtitle_index: Some(4),
        ..HlsQuery::default()
    };
    let request = playlist_request(&query).unwrap();
    assert_eq!(request.info_hash, HEX);
    assert_eq!(request.file_idx, 2);
    assert_eq!(request.audio_index, Some(3));
    assert_eq!(request.subtitle_index, Some(4));

    let reply = playlist_request(&HlsQuery::default()).unwrap_err();
    assert_eq!(reply.status, 400);
    assert_eq!(message(&reply), "missing mediaURL");
    let query = HlsQuery { media_url: Some("x".to_owned()), ..HlsQuery::default() };
    let reply = playlist_request(&query).unwrap_err();
    assert_eq!(message(&reply), "Could not derive a Torbox source from mediaURL=x");
}

#[test]
fn playlists_are_told_by_name() {
    assert!(is_playlist_name("master.m3u8"));
    assert!(!is_playlist_name("0.ts"));
}

#[test]
fn streams_are_filed() {
    let mut cache = ConvertCache::new();
    let reply = file_stream(&mut cache, "id", HEX.to_owned(), stream(None), 0).unwrap_err();
    assert_eq!(reply.status, 502);
    assert_eq!(message(&reply), "Torbox createstream returned no hls_url");
    assert!(cache.get_convert("id", 0).is_none());
    let url = file_stream(&mut cache, "id", HEX.to_owned(), stream(Some("u")), 1).unwrap();
    assert_eq!(url, "u");
    let entry = cache.get_convert("id", 7).unwrap();
    assert_eq!(entry.info_hash, HEX);
    assert_eq!(entry.last_used, 7);
}

#[test]
fn stale_entries_are_dropped() {
    let mut cache = ConvertCache::new();
    cache.put_convert("old", HEX.to_owned(), stream(None), 0);
    cache.put_convert("used", HEX.to_owned(), stream(None), 0);
    assert!(cache.get_convert("used", 10).is_some());
    cache.put_convert("new", HEX.to_owned(), stream(None), CONVERT_TTL);
    assert!(cache.get_convert("old", CONVERT_TTL).is_none());
    assert!(cache.get_convert("used", CONVERT_TTL).is_some());
    assert!(cache.get_convert("new", CONVERT_TTL).is_some());
}

#[test]
fn a_cold_stream_is_waited_for() {
    let mut warmup = Warmup::new();
    for _ in 0..WARMUP_RETRIES {
        assert!(matches!(warmup.replied(503, "503 Service Unavailable"), WarmupAction::Retry));
    }
    match warmup.replied(504, "504 Gateway Timeout") {
        WarmupAction::Fail(reason) => assert_eq!(
            reason,
            "playlist fetch returned non-success status 504 Gateway Timeout after 12 retries"
        ),
        other => panic!("{other:?}"),
    }
    assert!(matches!(warmup.replied(206, "206 Partial Content"), WarmupAction::ReadBody));
    let mut fresh = Warmup::new();
    match fresh.replied(404, "404 Not Found") {
        WarmupAction::Fail(reason) => assert_eq!(
            reason,
            "playlist fetch returned non-success status 404 Not Found after 0 retries"
        ),
        other => panic!("{other:?}"),
    }
}

#[test]
fn playlist_replies() {
    let reply = playlist(PlaylistFetch::Body("0.ts".to_owned()), UPSTREAM, "id", None, false);
    assert_eq!(reply.status, 200);
    assert_eq!(
        reply.headers,
        pairs(&[("content-type", "application/vnd.apple.mpegurl"), ("cache-control", "no-store")])
    );
    assert!(matches!(reply.body, Body::Text(text) if text == "/hlsv2/id/0%2Ets\n"));

    let reply = playlist(PlaylistFetch::Body("0.ts".to_owned()), UPSTREAM, "id", None, true);
    assert_eq!(reply.status, 302);
    assert_eq!(location(&reply), UPSTREAM);

    for (fetch, text) in [
        (PlaylistFetch::NotSent("e".to_owned()), "playlist fetch failed: e"),
        (PlaylistFetch::NotRead("e".to_owned()), "playlist body read failed: e"),
        (PlaylistFetch::Failed("e".to_owned()), "e"),
    ] {
        let reply = playlist(fetch, UPSTREAM, "id", None, true);
        assert_eq!(reply.status, 502);
        assert_eq!(message(&reply), text);
    }
}

#[test]
fn segments_are_redirected() {
    let mut cache = ConvertCache::new();
    let reply = segment(&mut cache, "id", "0.ts", 0);
    assert_eq!(reply.status, 404);
    assert_eq!(message(&reply), "Unknown convertId — playlist must be requested first");

    cache.put_convert("id", HEX.to_owned(), stream(Some(UPSTREAM)), 0);
    let reply = segment(&mut cache, "id", "0.ts?token=1&x=2", 5);
    assert_eq!(reply.status, 302);
    assert_eq!(location(&reply), "https://cdn.example/stream/0.ts?x=2");
    assert_eq!(cache.get_convert("id", 5).unwrap().last_used, 5);

    cache.put_convert("none", HEX.to_owned(), stream(None), 0);
    let reply = segment(&mut cache, "none", "0.ts", 0);
    assert_eq!(reply.status, 502);
    assert_eq!(message(&reply), "Torbox returned no hls_url");

    cache.put_convert("bad", HEX.to_owned(), stream(Some("bad")), 0);
    let reply = segment(&mut cache, "bad", "0.ts", 0);
    assert_eq!(reply.status, 502);
    assert_eq!(message(&reply), "bad upstream URL: relative URL without a base");
}

#[test]
fn locations_that_no_header_carries() {
    let reply = redirect_to_segment(Ok("not a url\n".to_owned()));
    assert_eq!(reply.status, 500);
    assert!(matches!(reply.body, Body::Text(text) if text == "failed to parse header value"));
}

#[test]
fn stripping_twice_changes_nothing() {
    for url in [
        "https://u:p@x:8443/a%20b/c.ts?token=1&b=%26+x&c#f",
        "http://x?token=1",
        "https://x/a?b=2",
        "https://x/a#token=1",
        "no url?token=1",
    ] {
        let once = strip_token(url);
        assert_eq!(strip_token(&once), once);
    }
    assert_eq!(
        strip_token("https://u:p@x:8443/a%20b/c.ts?token=1&b=%26+x#f"),
        "https://u:p@x:8443/a%20b/c.ts?b=%26+x#f"
    );
}

#[test]
fn tags_carry_no_token() {
    assert_eq!(
        rewrite_line("#EXT-X-MAP:URI=\"i.mp4?token=T\",BYTERANGE=\"7@0\"", UPSTREAM, "/p"),
        "#EXT-X-MAP:URI=\"/p/i%2Emp4\",BYTERANGE=\"7@0\""
    );
    assert_eq!(
        rewrite_line(
            "#EXT-X-MEDIA:URI=\"en.m3u8\",NAME=\"x\",URI=\"k?token=T\",URI=\"l?token=T&f=.m3u8\"",
            UPSTREAM,
            "/p"
        ),
        "#EXT-X-MEDIA:URI=\"en.m3u8\",NAME=\"x\",URI=\"/p/k\",\
         URI=\"https://cdn.example/stream/l?f=.m3u8\""
    );
    assert_eq!(route_value("i?tok%65n=T", UPSTREAM, "/p"), "/p/i");
    assert_eq!(route_tag("#X:URI=\"a?token=T", UPSTREAM, "/p"), "#X:URI=\"/p/a");
    assert_eq!(
        rewrite_line("#X:VALUE=\"https://x/?token=T\"", UPSTREAM, "/p"),
        "#X:VALUE=\"https://x/"
    );
    assert_eq!(
        rewrite_line("#X:VALUE=\"y?token=T\",URI=\"i\"", UPSTREAM, "/p?"),
        "#X:VALUE=\"y"
    );
    assert_eq!(rewrite_line("#X:URI=\"i?token=T\",A=1", "bad", "/p"), "#X:URI=\"i\",A=1");
}

#[test]
fn lines_without_a_token_are_copied() {
    for line in [
        "",
        " \t",
        "#EXTM3U",
        "  # why? because & so",
        "#a\rb",
        "#EXT-X-KEY:METHOD=NONE",
        "#K:URI=\"k.bin\"",
        "#K:URI=\"\"",
        "#K:URI=\"#x\"",
        "#K:URI=\"k?a=1&b=2\"",
        "#EXT-X-KEY:METHOD=AES-128,URI=\"data:text/plain;base64,AAAA\",IV=0x0",
        "#EXT-X-KEY:METHOD=SAMPLE-AES,URI=\"skd://key\"",
    ] {
        for prefix in ["/p", "/p?x"] {
            assert_eq!(rewrite_line(line, UPSTREAM, prefix), line);
        }
    }
    assert_eq!(rewrite_line("  0.ts?a=1\rb", "bad", "/p"), "  0.ts?a=1\rb");
    assert_eq!(rewrite_playlist("#a\rb", UPSTREAM, "id", None), "#a\rb\n");
    assert_eq!(rewrite_playlist("#a\r\r\n", UPSTREAM, "id", None), "#a\r\n");
}

#[test]
fn texts_that_name_no_url_are_cut() {
    assert_eq!(rewrite_line("0.ts?a=1&token=T", "bad", "/p"), "0.ts");
    assert_eq!(rewrite_line("0.ts?a=1", "bad", "/p"), "0.ts?a=1");
    assert_eq!(rewrite_line("https://[/x.m3u8?token=T&f=.m3u8", UPSTREAM, "/p"), "https://[/x.m3u8");
    assert!(has_mention("a&token=") && has_mention("?token=x"));
    assert!(!has_mention("presigned_token=x") && !has_mention("token=x"));
    assert_eq!(cut_at_mark("a&b?c"), "a");
    assert_eq!(hide_mention("x (https://y/?token=T)"), "x (https://y/");
    assert_eq!(hide_mention("x?y"), "x?y");
    assert!(!is_token_free("https://x/?a=1&tok%65n=T"));
    assert!(is_token_free("https://x/?a=1") && is_token_free("/x?token=T"));
}

#[test]
fn the_prefix_is_not_cut() {
    let out = rewrite_playlist("0.ts\n", UPSTREAM, "a?token=b", None);
    assert_eq!(out, "/hlsv2/a?token=b/0%2Ets\n");
    let out = rewrite_playlist("0.ts\n", UPSTREAM, "id", Some("https://gw/?token=T&x=1"));
    assert_eq!(out, "https://gw/?token=T&x=1/hlsv2/id/0%2Ets\n");
    let tag = "#M:URI=\"i?token=T\"";
    assert_eq!(rewrite_line(tag, UPSTREAM, "/a?token=b"), "#M:URI=\"/a?token=b/i\"");
    assert_eq!(keep_line("/a?token=b/i"), "/a");
    assert!(has_marks("a?") && has_marks("&") && !has_marks("a=b"));
}

#[test]
fn no_line_of_a_playlist_carries_a_token() {
    let upstream = "https://cdn.example/x/m.m3u8?token=T";
    let body = "#EXTM3U\n#EXT-X-MAP:URI=\"i.mp4?token=T\"\n\
                #EXT-X-KEY:METHOD=AES-128,URI=\"https://cdn.example/k?x=1&token=T\"\n\
                # see https://cdn.example/?token=T\n0.ts?token=T\nl.m3u8\n\
                https://cdn.example/l?token=T&f=.m3u8\n";
    let out = rewrite_playlist(body, upstream, "id", None);
    assert!(!out.contains("token=T"));
    assert!(out.lines().all(is_clean_line));
    assert_eq!(out.lines().count(), body.lines().count());
}

#[test]
fn segments_are_found_again() {
    let mut cache = ConvertCache::new();
    cache.put_convert("c", HEX.to_owned(), stream(Some(UPSTREAM)), 0);
    for (name, id) in [("0.ts", "c"), ("seg_1-a.ts", "c"), ("..x", "c"), ("A.b.C", "a?token=b")] {
        let line = rewrite_playlist(name, UPSTREAM, id, None);
        let encoded = line.trim_end().rsplit('/').next().unwrap().to_owned();
        let decoded = encoded.replace("%2E", ".").replace("%5F", "_").replace("%2D", "-");
        assert_eq!(decoded, name);
        let reply = segment(&mut cache, "c", &decoded, 0);
        assert_eq!(location(&reply), resolve_relative(UPSTREAM, name).unwrap());
    }
}

#[test]
fn reasons_do_not_quote_the_token() {
    let fetch = PlaylistFetch::NotSent(format!("error for url ({UPSTREAM})"));
    let reply = playlist(fetch, UPSTREAM, "id", None, false);
    assert_eq!(
        message(&reply),
        "playlist fetch failed: error for url (https://cdn.example/stream/master.m3u8"
    );
}

#[test]
fn a_url_whose_text_is_no_url() {
    let label: String = (0..1000u32).map(|i| char::from_u32(0x4e00 + 20 * i).unwrap()).collect();
    let upstream = format!("https://{label}/x/m.m3u8?token=T");
    let stripped = strip_token(&upstream);
    assert!(!stripped.contains("token"));
    assert_eq!(strip_token(&stripped), stripped);
    let line = rewrite_line("0.ts", &upstream, "/p");
    assert!(line.starts_with("/p/https%3A%2F%2Fxn%2D%2D"));
    assert!(is_clean_line(&line));
}
