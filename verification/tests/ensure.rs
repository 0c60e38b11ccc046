use stremio_service::config::GatewayConfig;
use stremio_service::gateway::routes::ensure::{
    ensure_mapping, select_file, Action, Ensure, Event, Phase, Start, TORRENT_READY_TIMEOUT,
};
use stremio_service::gateway::state::{AppState, TorrentMapping};
use stremio_service::json::Json;
use stremio_service::response::{Body, Response};
use stremio_service::torbox::{
    CreatedTorrent, TorboxClient, TorboxError, TorrentFile, TorrentRecord,
};

const HEX: &str = "0123456789abcdef0123456789abcdef01234567";

fn state() -> AppState {
    let cfg = GatewayConfig {
        torbox_api_key: "KEY".to_owned(),
        bind: "127.0.0.1".to_owned(),
        port: 11470,
        extra_allowed_origins: vec![],
        public_base_url: None,
        force_transcode: false,
        direct_hls: false,
    };
    AppState::new(TorboxClient::new("KEY".to_owned()), cfg)
}

fn file(id: i64, name: &str, size: i64) -> TorrentFile {
    TorrentFile { id, name: Some(name.to_owned()), size: Some(size), mimetype: None }
}

fn record(ready: bool) -> TorrentRecord {
    TorrentRecord {
        id: 77,
        hash: Some(HEX.to_uppercase()),
        name: None,
        size: None,
        download_state: if ready { Some("cached".to_owned()) } else { None },
        progress: None,
        cached: None,
        files: vec![file(0, "a.mkv", 5), file(4, "b.mkv", 9)],
    }
}

fn created(id: Option<i64>) -> CreatedTorrent {
    CreatedTorrent { id, hash: None, auth_id: None, queued_id: None }
}

fn message(reply: &Response) -> String {
    match &reply.body {
        Body::Json(Json::Object(members)) => match &members[0] {
            (_, Json::Str(text)) => text.clone(),
            other => panic!("{other:?}"),
        },
        other => panic!("{other:?}"),
    }
}

fn start(magnet: Option<&str>, desired: Option<i64>) -> Ensure {
    match ensure_mapping(&state(), &HEX.to_uppercase(), magnet.map(|m| m.to_owned()), desired) {
        Start::Run(run, Action::List) => run,
        _ => panic!("a fresh run lists the account"),
    }
}

fn stored(action: Action) -> TorrentMapping {
    match action {
        Action::Store(mapping) => mapping,
        other => panic!("{other:?}"),
    }
}

fn refused(action: Action) -> Response {
    match action {
        Action::Refuse(reply) => reply,
        other => panic!("{other:?}"),
    }
}

#[test]
fn a_known_mapping_is_reused() {
    let mut s = state();
    let (_, action) = start(None, None).step(Event::Listed(Ok(vec![record(true)])), 0);
    s.put_mapping(HEX, stored(action));
    for desired in [None, Some(4)] {
        match ensure_mapping(&s, &HEX.to_uppercase(), None, desired) {
            Start::Known(mapping) => assert_eq!(mapping.file_id, 4),
            Start::Run(..) => panic!("known"),
        }
    }
    assert!(matches!(ensure_mapping(&s, HEX, None, Some(0)), Start::Run(..)));
}

#[test]
fn a_ready_torrent_of_the_account_is_mapped() {
    let (run, action) = start(None, None).step(Event::Listed(Ok(vec![record(true)])), 5);
    assert_eq!(run.phase, Phase::Done);
    assert_eq!(run.hash, HEX);
    let mapping = stored(action);
    assert_eq!(mapping.torrent_id, 77);
    assert_eq!(mapping.file_id, 4);
    assert_eq!(mapping.file_name.as_deref(), Some("b.mkv"));
    assert_eq!(mapping.size, Some(9));
    assert_eq!(mapping.last_used_at, 5);
    assert!(mapping.last_stream.is_none());
}

#[test]
fn the_desired_file_is_mapped_where_it_exists() {
    let (_, action) = start(None, Some(0)).step(Event::Listed(Ok(vec![record(true)])), 0);
    assert_eq!(stored(action).file_id, 0);
    let (_, action) = start(None, Some(9)).step(Event::Listed(Ok(vec![record(true)])), 0);
    assert_eq!(stored(action).file_id, 4);
    let r = record(true);
    assert_eq!(select_file(&r, Some(0)).unwrap().id, 0);
    assert_eq!(select_file(&r, None).unwrap().id, 4);
    let mut empty = record(true);
    empty.files.clear();
    assert!(select_file(&empty, Some(0)).is_none());
}

#[test]
fn an_absent_torrent_is_added_once() {
    let (run, action) = start(None, None).step(Event::Listed(Ok(vec![])), 0);
    assert_eq!(run.phase, Phase::Creating);
    assert!(matches!(action, Action::Create(m) if m == format!("magnet:?xt=urn:btih:{HEX}")));
    let (run, action) = run.step(Event::Created(Ok(created(Some(5)))), 1);
    assert_eq!(run.phase, Phase::Fetching { deadline: None });
    assert!(matches!(action, Action::Fetch(5)));
    let (run, action) = run.step(Event::Fetched(Ok(record(true))), 2);
    assert_eq!(run.phase, Phase::Done);
    assert_eq!(stored(action).torrent_id, 77);

    let (_, action) = start(Some("magnet:?mine"), None).step(Event::Listed(Ok(vec![])), 0);
    assert!(matches!(action, Action::Create(m) if m == "magnet:?mine"));
}

#[test]
fn a_slow_torrent_is_waited_for() {
    let deadline = 1_000 + TORRENT_READY_TIMEOUT;
    let (run, action) = start(None, None).step(Event::Listed(Ok(vec![record(false)])), 1_000);
    assert_eq!(run.phase, Phase::Fetching { deadline: Some(deadline) });
    assert!(matches!(action, Action::SleepAndFetch(77)));
    let mut no_files = record(true);
    no_files.files.clear();
    let (run, action) = run.step(Event::Fetched(Ok(no_files)), deadline - 1);
    assert_eq!(run.phase, Phase::Fetching { deadline: Some(deadline) });
    assert!(matches!(action, Action::SleepAndFetch(77)));
    let (run, action) = run.step(Event::Fetched(Ok(record(false))), deadline);
    assert_eq!(run.phase, Phase::Done);
    let reply = refused(action);
    assert_eq!(reply.status, 504);
    assert_eq!(
        message(&reply),
        format!("Torbox did not finish caching torrent {HEX} within 120s")
    );
}

#[test]
fn a_torrent_that_is_ready_late_is_still_mapped() {
    let (run, _) = start(None, None).step(Event::Listed(Ok(vec![record(false)])), 0);
    let (_, action) = run.step(Event::Fetched(Ok(record(true))), 10 * TORRENT_READY_TIMEOUT);
    assert_eq!(stored(action).torrent_id, 77);
}

#[test]
fn upstream_failures_end_a_run() {
    let error = || TorboxError::Api { code: "BAD_TOKEN".to_owned(), detail: "d".to_owned() };
    let (run, action) = start(None, None).step(Event::Listed(Err(error())), 0);
    assert_eq!(run.phase, Phase::Done);
    assert_eq!(refused(action).status, 401);

    let (run, _) = start(None, None).step(Event::Listed(Ok(vec![])), 0);
    let (_, action) = run.step(Event::Created(Err(error())), 0);
    assert_eq!(refused(action).status, 401);

    let (run, _) = start(None, None).step(Event::Listed(Ok(vec![])), 0);
    let (_, action) = run.step(Event::Created(Ok(created(None))), 0);
    let reply = refused(action);
    assert_eq!(reply.status, 502);
    assert_eq!(message(&reply), "Torbox createtorrent returned no id");

    let (run, _) = start(None, None).step(Event::Listed(Ok(vec![record(false)])), 0);
    let (_, action) = run.step(Event::Fetched(Err(error())), 0);
    assert_eq!(refused(action).status, 401);
}
