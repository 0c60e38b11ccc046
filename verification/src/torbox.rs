//! The Torbox API: what is asked, and what the answers mean.
//!
//! A request is a plain value that the transport sends. Every answer is an
//! envelope `{success, error, detail, data}`; its payload comes out, or a
//! [`TorboxError`] with the code that the API gave.
use vstd::prelude::*;
use vstd::string::*;

use crate::bindings::pair_texts;
use crate::constants::TORBOX_API_BASE;
use crate::json::Double;
use crate::laws::text::beginnings_and_ends;
use crate::text::{
    begins, decimal, ends, ends_with, lower, same_text, show_i64, show_u64, signed_decimal,
    starts_with, to_lower,
};

verus! {

// ---------------------------------------------------------------------------
// Errors
// ---------------------------------------------------------------------------

/// Anything that can go wrong talking to Torbox.
#[derive(Debug)]
pub enum TorboxError {
    /// The request itself failed; the message says how.
    Http(String),
    /// The body was not the document that was expected.
    BadJson(String),
    /// The API refused, with a code.
    Api { code: String, detail: String },
    /// The API answered without a payload.
    NoCode { detail: String },
}

/// What a [`TorboxError`] stands for.
pub enum TorboxErrorView {
    Http(Seq<char>),
    BadJson(Seq<char>),
    Api { code: Seq<char>, detail: Seq<char> },
    NoCode { detail: Seq<char> },
}

impl View for TorboxError {
    type V = TorboxErrorView;

    open spec fn view(&self) -> TorboxErrorView {
        match self {
            TorboxError::Http(m) => TorboxErrorView::Http(m@),
            TorboxError::BadJson(m) => TorboxErrorView::BadJson(m@),
            TorboxError::Api { code, detail } => TorboxErrorView::Api {
                code: code@,
                detail: detail@,
            },
            TorboxError::NoCode { detail } => TorboxErrorView::NoCode { detail: detail@ },
        }
    }
}

/// The message of an error.
pub open spec fn torbox_message(e: TorboxErrorView) -> Seq<char> {
    match e {
        TorboxErrorView::Http(m) => "Torbox HTTP error: "@ + m,
        TorboxErrorView::BadJson(m) => "Torbox returned malformed JSON: "@ + m,
        TorboxErrorView::Api { code, detail } => "Torbox API error: "@ + code + " — "@ + detail,
        TorboxErrorView::NoCode { detail } => "Torbox API error: "@ + detail,
    }
}

impl TorboxError {
    /// The message that a human reads.
    pub fn message(&self) -> (r: String)
        ensures
            r@ == torbox_message(self@),
    {
        match self {
            TorboxError::Http(m) => {
                let mut out = "Torbox HTTP error: ".to_owned();
                out.append(m.as_str());
                out
            },
            TorboxError::BadJson(m) => {
                let mut out = "Torbox returned malformed JSON: ".to_owned();
                out.append(m.as_str());
                out
            },
            TorboxError::Api { code, detail } => {
                let mut out = "Torbox API error: ".to_owned();
                out.append(code.as_str());
                out.append(" — ");
                out.append(detail.as_str());
                out
            },
            TorboxError::NoCode { detail } => {
                let mut out = "Torbox API error: ".to_owned();
                out.append(detail.as_str());
                out
            },
        }
    }
}

/// What an outcome stands for: the payload as it is, an error by what it says.
pub open spec fn outcome_view<T>(r: Result<T, TorboxError>) -> Result<T, TorboxErrorView> {
    match r {
        Ok(value) => Ok(value),
        Err(e) => Err(e@),
    }
}

// ---------------------------------------------------------------------------
// Envelope
// ---------------------------------------------------------------------------

/// The envelope around every answer of the API.
#[derive(Debug)]
pub struct Envelope<T> {
    pub success: bool,
    pub error: Option<String>,
    pub detail: Option<String>,
    pub data: Option<T>,
}

/// A text, or another where there is none.
pub open spec fn text_or(s: Option<String>, other: Seq<char>) -> Seq<char> {
    match s {
        Some(text) => text@,
        None => other,
    }
}

fn or_text(s: Option<String>, other: &str) -> (r: String)
    ensures
        r@ == text_or(s, other@),
{
    match s {
        Some(text) => text,
        None => other.to_owned(),
    }
}

/// What an envelope says: its payload, where it reports success and has one;
/// the refusal that it reports otherwise.
pub open spec fn envelope_outcome<T>(env: Envelope<T>) -> Result<T, TorboxErrorView> {
    if env.success {
        match env.data {
            Some(data) => Ok(data),
            None => Err(
                TorboxErrorView::NoCode { detail: text_or(env.detail, "empty success body"@) },
            ),
        }
    } else {
        Err(
            TorboxErrorView::Api {
                code: text_or(env.error, "UNKNOWN_ERROR"@),
                detail: text_or(env.detail, "no detail"@),
            },
        )
    }
}

/// What a decoded answer says; a body that could not be decoded is reported
/// with the status line and the text that came.
pub open spec fn parse_outcome<T>(
    status: Seq<char>,
    body: Seq<char>,
    decoded: Result<Envelope<T>, String>,
) -> Result<T, TorboxErrorView> {
    match decoded {
        Ok(env) => envelope_outcome(env),
        Err(reason) => Err(
            TorboxErrorView::BadJson(
                "status="@ + status + " body="@ + body + " err="@ + reason@,
            ),
        ),
    }
}

/// An object keyed by hash, a list, or something else: the shapes in which the
/// cache check answers.
#[derive(Debug)]
pub enum CachedData<T> {
    Array,
    Object(Vec<(String, T)>),
    Other,
}

/// The position of the member that answers for a hash: the first one under
/// that name, else the first one at all.
pub open spec fn answers_for<T>(members: Seq<(String, T)>, hash: Seq<char>, i: int) -> bool {
    &&& 0 <= i < members.len()
    &&& members[i].0@ == hash ==> forall|j: int| 0 <= j < i ==> (#[trigger] members[j]).0@ != hash
    &&& members[i].0@ != hash ==> i == 0 && forall|j: int|
        0 <= j < members.len() ==> (#[trigger] members[j]).0@ != hash
}

/// Whether an outcome of the cache check is the one that its envelope calls
/// for.
pub open spec fn cached_outcome<T>(
    env: Envelope<CachedData<T>>,
    hash: Seq<char>,
    r: Result<Option<T>, TorboxErrorView>,
) -> bool {
    if !env.success {
        r == Err::<Option<T>, TorboxErrorView>(
            TorboxErrorView::Api {
                code: text_or(env.error, "UNKNOWN_ERROR"@),
                detail: text_or(env.detail, Seq::empty()),
            },
        )
    } else {
        match env.data {
            Some(CachedData::Object(members)) => if members@.len() == 0 {
                r == Ok::<Option<T>, TorboxErrorView>(None)
            } else {
                exists|i: int|
                    #[trigger] answers_for(members@, hash, i) && r == Ok::<
                        Option<T>,
                        TorboxErrorView,
                    >(Some(members@[i].1))
            },
            _ => r == Ok::<Option<T>, TorboxErrorView>(None),
        }
    }
}

// ---------------------------------------------------------------------------
// Requests
// ---------------------------------------------------------------------------

/// A request to the API. A form makes it a POST of that form, else it is a
/// GET.
#[derive(Debug)]
pub struct ApiRequest {
    pub url: String,
    pub bearer: String,
    pub query: Vec<(String, String)>,
    pub form: Option<Vec<(String, String)>>,
}

/// What an [`ApiRequest`] stands for.
pub struct ApiRequestView {
    pub url: Seq<char>,
    pub bearer: Seq<char>,
    pub query: Seq<(Seq<char>, Seq<char>)>,
    pub form: Option<Seq<(Seq<char>, Seq<char>)>>,
}

impl View for ApiRequest {
    type V = ApiRequestView;

    open spec fn view(&self) -> ApiRequestView {
        ApiRequestView {
            url: self.url@,
            bearer: self.bearer@,
            query: pair_texts(self.query@),
            form: match self.form {
                Some(pairs) => Some(pair_texts(pairs@)),
                None => None,
            },
        }
    }
}

fn push_pair(pairs: &mut Vec<(String, String)>, name: &str, value: &str)
    ensures
        pair_texts(final(pairs)@) == pair_texts(old(pairs)@).push((name@, value@)),
{
    pairs.push((name.to_owned(), value.to_owned()));
    proof {
        assert(pair_texts(pairs@) == pair_texts(old(pairs)@).push((name@, value@)));
    }
}

fn no_pairs() -> (r: Vec<(String, String)>)
    ensures
        pair_texts(r@) == Seq::<(Seq<char>, Seq<char>)>::empty(),
{
    let r: Vec<(String, String)> = Vec::new();
    proof {
        assert(pair_texts(r@) == Seq::<(Seq<char>, Seq<char>)>::empty());
    }
    r
}

/// A query with one more number, where there is one.
pub open spec fn with_index(
    query: Seq<(Seq<char>, Seq<char>)>,
    name: Seq<char>,
    index: Option<u32>,
) -> Seq<(Seq<char>, Seq<char>)> {
    match index {
        Some(n) => query.push((name, decimal(n as nat))),
        None => query,
    }
}

fn push_index(pairs: &mut Vec<(String, String)>, name: &str, index: Option<u32>)
    ensures
        pair_texts(final(pairs)@) == with_index(pair_texts(old(pairs)@), name@, index),
{
    match index {
        Some(n) => {
            let text = show_u64(n as u64);
            push_pair(pairs, name, &text);
        },
        None => {},
    }
}

/// A query with the chosen tracks.
pub open spec fn with_choices(
    query: Seq<(Seq<char>, Seq<char>)>,
    audio: Option<u32>,
    subtitle: Option<u32>,
    resolution: Option<u32>,
) -> Seq<(Seq<char>, Seq<char>)> {
    with_index(
        with_index(
            with_index(query, "chosen_audio_index"@, audio),
            "chosen_subtitle_index"@,
            subtitle,
        ),
        "chosen_resolution_index"@,
        resolution,
    )
}

/// The member that answers for a hash.
fn answering_member<T>(members: &Vec<(String, T)>, info_hash: &str) -> (i: usize)
    requires
        members@.len() > 0,
    ensures
        answers_for(members@, info_hash@, i as int),
{
    let n: usize = members.len();
    let mut i: usize = 0;
    while i < n
        invariant
            i <= n,
            n == members@.len(),
            forall|j: int| 0 <= j < i ==> (#[trigger] members@[j]).0@ != info_hash@,
        decreases n - i,
    {
        if same_text(members[i].0.as_str(), info_hash) {
            return i;
        }
        i = i + 1;
    }
    0
}

/// The position of the first record with a hash.
fn hash_position(list: &Vec<TorrentRecord>, info_hash: &str) -> (r: Option<usize>)
    ensures
        r is None ==> first_with_hash(list@, info_hash@, 0) is None,
        r matches Some(i) ==> i < list@.len() && first_with_hash(list@, info_hash@, 0) == Some(
            list@[i as int],
        ),
{
    let needle = to_lower(info_hash);
    let n: usize = list.len();
    let mut i: usize = 0;
    while i < n
        invariant
            i <= n,
            n == list@.len(),
            needle@ == lower(info_hash@),
            first_with_hash(list@, info_hash@, 0) == first_with_hash(list@, info_hash@, i as int),
        decreases n - i,
    {
        let hit: bool = match &list[i].hash {
            Some(h) => same_text(to_lower(h.as_str()).as_str(), needle.as_str()),
            None => false,
        };
        if hit {
            return Some(i);
        }
        i = i + 1;
    }
    None
}

/// Builds the requests to the API, with the key of the account.
#[derive(Debug, Clone)]
pub struct TorboxClient {
    base: String,
    token: String,
}

impl TorboxClient {
    /// The base URL of the API.
    pub closed spec fn spec_base(self) -> Seq<char> {
        self.base@
    }

    /// The key of the account.
    pub closed spec fn spec_token(self) -> Seq<char> {
        self.token@
    }

    /// A GET request for a path of the API.
    pub open spec fn get_request(
        self,
        path: Seq<char>,
        query: Seq<(Seq<char>, Seq<char>)>,
    ) -> ApiRequestView {
        ApiRequestView {
            url: self.spec_base() + path,
            bearer: self.spec_token(),
            query,
            form: None,
        }
    }

    /// A client for the public API.
    pub fn new(token: String) -> (r: Self)
        ensures
            r.spec_base() == TORBOX_API_BASE@,
            r.spec_token() == token@,
    {
        TorboxClient { base: TORBOX_API_BASE.to_owned(), token }
    }

    /// The key of the account.
    pub fn token(&self) -> (r: &str)
        ensures
            r@ == self.spec_token(),
    {
        self.token.as_str()
    }

    /// The URL of a path of the API.
    pub fn url(&self, path: &str) -> (r: String)
        ensures
            r@ == self.spec_base() + path@,
    {
        let mut out = self.base.clone();
        out.append(path);
        out
    }

    fn get(&self, path: &str, query: Vec<(String, String)>) -> (r: ApiRequest)
        ensures
            r@ == self.get_request(path@, pair_texts(query@)),
    {
        ApiRequest { url: self.url(path), bearer: self.token.clone(), query, form: None }
    }

    /// What a decoded answer says.
    pub fn parse<T>(status: &str, body: &str, decoded: Result<Envelope<T>, String>) -> (r: Result<
        T,
        TorboxError,
    >)
        ensures
            outcome_view(r) == parse_outcome(status@, body@, decoded),
    {
        match decoded {
            Ok(env) => {
                if env.success {
                    match env.data {
                        Some(data) => Ok(data),
                        None => Err(
                            TorboxError::NoCode {
                                detail: or_text(env.detail, "empty success body"),
                            },
                        ),
                    }
                } else {
                    Err(
                        TorboxError::Api {
                            code: or_text(env.error, "UNKNOWN_ERROR"),
                            detail: or_text(env.detail, "no detail"),
                        },
                    )
                }
            },
            Err(reason) => {
                let mut m = "status=".to_owned();
                m.append(status);
                m.append(" body=");
                m.append(body);
                m.append(" err=");
                m.append(reason.as_str());
                Err(TorboxError::BadJson(m))
            },
        }
    }

    /// Asks whether a torrent is globally cached.
    pub fn check_cached(&self, info_hash: &str) -> (r: ApiRequest)
        ensures
            r@ == self.get_request(
                "/v1/api/torrents/checkcached"@,
                seq![("hash"@, info_hash@), ("format"@, "object"@), ("list_files"@, "true"@)],
            ),
    {
        let mut query = no_pairs();
        push_pair(&mut query, "hash", info_hash);
        push_pair(&mut query, "format", "object");
        push_pair(&mut query, "list_files", "true");
        proof {
            assert(pair_texts(query@) == seq![
                ("hash"@, info_hash@),
                ("format"@, "object"@),
                ("list_files"@, "true"@),
            ]);
        }
        self.get("/v1/api/torrents/checkcached", query)
    }

    /// What the cache check found: the entry under the hash, else the first
    /// entry. A list, or no payload, means that nothing is cached.
    pub fn check_cached_reply<T>(env: Envelope<CachedData<T>>, info_hash: &str) -> (r: Result<
        Option<T>,
        TorboxError,
    >)
        ensures
            cached_outcome(env, info_hash@, outcome_view(r)),
    {
        if !env.success {
            return Err(
                TorboxError::Api {
                    code: or_text(env.error, "UNKNOWN_ERROR"),
                    detail: match env.detail {
                        Some(text) => text,
                        None => String::new(),
                    },
                },
            );
        }
        match env.data {
            Some(CachedData::Object(mut members)) => {
                if members.len() == 0 {
                    return Ok(None);
                }
                let i: usize = answering_member(&members, info_hash);
                let (_, found) = members.swap_remove(i);
                Ok(Some(found))
            },
            _ => Ok(None),
        }
    }

    /// Asks to add a magnet to the account.
    pub fn create_torrent_from_magnet(&self, magnet: &str) -> (r: ApiRequest)
        ensures
            r@ == (ApiRequestView {
                url: self.spec_base() + "/v1/api/torrents/createtorrent"@,
                bearer: self.spec_token(),
                query: Seq::empty(),
                form: Some(
                    seq![
                        ("magnet"@, magnet@),
                        ("seed"@, "3"@),
                        ("allow_zip"@, "false"@),
                        ("as_queued"@, "false"@),
                    ],
                ),
            }),
    {
        let mut form = no_pairs();
        push_pair(&mut form, "magnet", magnet);
        push_pair(&mut form, "seed", "3");
        push_pair(&mut form, "allow_zip", "false");
        push_pair(&mut form, "as_queued", "false");
        proof {
            assert(pair_texts(form@) == seq![
                ("magnet"@, magnet@),
                ("seed"@, "3"@),
                ("allow_zip"@, "false"@),
                ("as_queued"@, "false"@),
            ]);
        }
        ApiRequest {
            url: self.url("/v1/api/torrents/createtorrent"),
            bearer: self.token.clone(),
            query: no_pairs(),
            form: Some(form),
        }
    }

    /// Asks for the record of one torrent.
    pub fn get_torrent(&self, id: i64) -> (r: ApiRequest)
        ensures
            r@ == self.get_request(
                "/v1/api/torrents/mylist"@,
                seq![("id"@, signed_decimal(id as int)), ("bypass_cache"@, "true"@)],
            ),
    {
        let mut query = no_pairs();
        push_pair(&mut query, "id", &show_i64(id));
        push_pair(&mut query, "bypass_cache", "true");
        proof {
            assert(pair_texts(query@) == seq![
                ("id"@, signed_decimal(id as int)),
                ("bypass_cache"@, "true"@),
            ]);
        }
        self.get("/v1/api/torrents/mylist", query)
    }

    /// Asks for the torrents of the account.
    pub fn find_torrent_by_hash(&self) -> (r: ApiRequest)
        ensures
            r@ == self.get_request(
                "/v1/api/torrents/mylist"@,
                seq![("bypass_cache"@, "true"@), ("limit"@, "1000"@)],
            ),
    {
        let mut query = no_pairs();
        push_pair(&mut query, "bypass_cache", "true");
        push_pair(&mut query, "limit", "1000");
        proof {
            assert(pair_texts(query@) == seq![("bypass_cache"@, "true"@), ("limit"@, "1000"@)]);
        }
        self.get("/v1/api/torrents/mylist", query)
    }

    /// Picks the first torrent with the hash, in either case, from the
    /// torrents of the account.
    pub fn find_torrent_by_hash_reply(list: Vec<TorrentRecord>, info_hash: &str) -> (r: Option<
        TorrentRecord,
    >)
        ensures
            r == first_with_hash(list@, info_hash@, 0),
    {
        let mut list = list;
        match hash_position(&list, info_hash) {
            Some(i) => Some(list.swap_remove(i)),
            None => None,
        }
    }

    /// Asks for a direct download link of a file.
    pub fn request_download_link(&self, torrent_id: i64, file_id: i64) -> (r: ApiRequest)
        ensures
            r@ == self.get_request(
                "/v1/api/torrents/requestdl"@,
                seq![
                    ("token"@, self.spec_token()),
                    ("torrent_id"@, signed_decimal(torrent_id as int)),
                    ("file_id"@, signed_decimal(file_id as int)),
                    ("redirect"@, "false"@),
                ],
            ),
    {
        let mut query = no_pairs();
        push_pair(&mut query, "token", self.token.as_str());
        push_pair(&mut query, "torrent_id", &show_i64(torrent_id));
        push_pair(&mut query, "file_id", &show_i64(file_id));
        push_pair(&mut query, "redirect", "false");
        proof {
            assert(pair_texts(query@) == seq![
                ("token"@, self.spec_token()),
                ("torrent_id"@, signed_decimal(torrent_id as int)),
                ("file_id"@, signed_decimal(file_id as int)),
                ("redirect"@, "false"@),
            ]);
        }
        self.get("/v1/api/torrents/requestdl", query)
    }

    /// Asks for a stream of a file; the first request starts the transcoder.
    pub fn create_stream(&self, opts: &CreateStreamOptions) -> (r: ApiRequest)
        ensures
            r@ == self.get_request(
                "/v1/api/stream/createstream"@,
                with_choices(
                    seq![
                        ("id"@, signed_decimal(opts.id as int)),
                        ("file_id"@, signed_decimal(opts.file_id as int)),
                        ("type"@, opts.kind.name()),
                    ],
                    opts.audio_index,
                    opts.subtitle_index,
                    opts.resolution_index,
                ),
            ),
    {
        let mut query = no_pairs();
        push_pair(&mut query, "id", &show_i64(opts.id));
        push_pair(&mut query, "file_id", &show_i64(opts.file_id));
        push_pair(&mut query, "type", opts.kind.as_str());
        proof {
            assert(pair_texts(query@) == seq![
                ("id"@, signed_decimal(opts.id as int)),
                ("file_id"@, signed_decimal(opts.file_id as int)),
                ("type"@, opts.kind.name()),
            ]);
        }
        push_index(&mut query, "chosen_audio_index", opts.audio_index);
        push_index(&mut query, "chosen_subtitle_index", opts.subtitle_index);
        push_index(&mut query, "chosen_resolution_index", opts.resolution_index);
        self.get("/v1/api/stream/createstream", query)
    }

    /// Asks for the state of a stream that exists already.
    pub fn get_stream_data(&self, presigned_token: &str, opts: &GetStreamDataOverrides) -> (r:
        ApiRequest)
        ensures
            r@ == self.get_request(
                "/v1/api/stream/getstreamdata"@,
                with_choices(
                    seq![("presigned_token"@, presigned_token@), ("token"@, self.spec_token())],
                    opts.audio_index,
                    opts.subtitle_index,
                    opts.resolution_index,
                ),
            ),
    {
        let mut query = no_pairs();
        push_pair(&mut query, "presigned_token", presigned_token);
        push_pair(&mut query, "token", self.token.as_str());
        proof {
            assert(pair_texts(query@) == seq![
                ("presigned_token"@, presigned_token@),
                ("token"@, self.spec_token()),
            ]);
        }
        push_index(&mut query, "chosen_audio_index", opts.audio_index);
        push_index(&mut query, "chosen_subtitle_index", opts.subtitle_index);
        push_index(&mut query, "chosen_resolution_index", opts.resolution_index);
        self.get("/v1/api/stream/getstreamdata", query)
    }
}

// ---------------------------------------------------------------------------
// Payloads
// ---------------------------------------------------------------------------

/// What the cache check tells about a hash.
#[derive(Debug, Clone)]
pub struct CachedHashInfo {
    pub name: Option<String>,
    pub size: Option<i64>,
    pub hash: Option<String>,
    pub files: Vec<CachedFileInfo>,
}

/// A file of a cached torrent.
#[derive(Debug, Clone)]
pub struct CachedFileInfo {
    pub name: Option<String>,
    pub size: Option<i64>,
}

/// What adding a torrent returns.
#[derive(Debug, Clone)]
pub struct CreatedTorrent {
    pub id: Option<i64>,
    pub hash: Option<String>,
    pub auth_id: Option<String>,
    pub queued_id: Option<i64>,
}

/// A torrent of the account.
#[derive(Debug, Clone)]
pub struct TorrentRecord {
    pub id: i64,
    pub hash: Option<String>,
    pub name: Option<String>,
    pub size: Option<i64>,
    pub download_state: Option<String>,
    pub progress: Option<Double>,
    pub cached: Option<bool>,
    pub files: Vec<TorrentFile>,
}

/// A file of a torrent.
#[derive(Debug, Clone)]
pub struct TorrentFile {
    pub id: i64,
    pub name: Option<String>,
    pub size: Option<i64>,
    pub mimetype: Option<String>,
}

/// The download states in which a torrent can be streamed.
pub open spec fn is_ready_state(state: Seq<char>) -> bool {
    ||| state == "cached"@
    ||| state == "completed"@
    ||| state == "uploading"@
    ||| state == "seeding"@
    ||| state == "stalled (UP)"@
}

/// The first record with the hash, from position `from` on.
pub open spec fn first_with_hash(list: Seq<TorrentRecord>, hash: Seq<char>, from: int) -> Option<
    TorrentRecord,
>
    decreases list.len() - from,
{
    if from < 0 || from >= list.len() {
        None
    } else if list[from].has_hash(hash) {
        Some(list[from])
    } else {
        first_with_hash(list, hash, from + 1)
    }
}

/// The size of a file; a file of unknown size counts as empty.
pub open spec fn file_size(f: TorrentFile) -> int {
    match f.size {
        Some(n) => n as int,
        None => 0,
    }
}

/// Whether no file in `files` that `video_only` admits is larger than the one
/// at `i`, nor as large and further down the list.
pub open spec fn is_largest(files: Seq<TorrentFile>, video_only: bool, i: int) -> bool {
    &&& 0 <= i < files.len()
    &&& video_only ==> files[i].video_like()
    &&& forall|j: int|
        0 <= j < files.len() && (video_only ==> (#[trigger] files[j]).video_like()) ==> file_size(
            files[j],
        ) < file_size(files[i]) || (file_size(files[j]) == file_size(files[i]) && j <= i)
}

/// Whether a list holds a file that looks like a video.
pub open spec fn has_video(files: Seq<TorrentFile>) -> bool {
    exists|j: int| 0 <= j < files.len() && (#[trigger] files[j]).video_like()
}

/// Whether the file at `i` is the one to play: the largest video, or the
/// largest file where no file looks like a video.
pub open spec fn is_pick(files: Seq<TorrentFile>, i: int) -> bool {
    is_largest(files, has_video(files), i)
}

impl TorrentRecord {
    /// Whether the record has a hash, in either case.
    pub open spec fn has_hash(self, hash: Seq<char>) -> bool {
        match self.hash {
            Some(h) => lower(h@) == lower(hash),
            None => false,
        }
    }

    /// Whether the torrent is fully downloaded.
    pub open spec fn ready(self) -> bool {
        ||| self.download_state matches Some(state) && is_ready_state(state@)
        ||| self.progress matches Some(p) && p.spec_at_least_one()
    }

    /// Whether the torrent is fully downloaded and can be streamed.
    pub fn is_ready(&self) -> (r: bool)
        ensures
            r == self.ready(),
            r <==> (self.download_state matches Some(s) && (s@ == "cached"@ || s@ == "completed"@
                || s@ == "uploading"@ || s@ == "seeding"@ || s@ == "stalled (UP)"@)) || (
            self.progress matches Some(p) && 0x3ff0_0000_0000_0000 <= p.bits as int
                <= 0x7ff0_0000_0000_0000),
    {
        let done: bool = match &self.progress {
            Some(p) => p.at_least_one(),
            None => false,
        };
        match &self.download_state {
            Some(s) => same_text(s, "cached") || same_text(s, "completed") || same_text(
                s,
                "uploading",
            ) || same_text(s, "seeding") || same_text(s, "stalled (UP)") || done,
            None => done,
        }
    }

    /// The position of the largest file, of the videos or of all files.
    fn largest(&self, video_only: bool) -> (r: Option<usize>)
        ensures
            r is None <==> (if video_only {
                !has_video(self.files@)
            } else {
                self.files@.len() == 0
            }),
            r matches Some(i) ==> is_largest(self.files@, video_only, i as int),
    {
        let n: usize = self.files.len();
        let mut best: Option<usize> = None;
        let mut i: usize = 0;
        while i < n
            invariant
                i <= n,
                n == self.files@.len(),
                best is None && i > 0 ==> video_only,
                best is None ==> forall|j: int|
                    0 <= j < i ==> !(#[trigger] self.files@[j]).video_like(),
                best matches Some(b) ==> is_largest(self.files@.take(i as int), video_only, b as int),
            decreases n - i,
        {
            let ghost seen = self.files@.take(i as int);
            let ghost next = self.files@.take(i + 1);
            proof {
                assert(forall|j: int| 0 <= j < i ==> seen[j] == next[j]);
                assert(next[i as int] == self.files@[i as int]);
            }
            let admitted: bool = !video_only || self.files[i].is_video_like();
            if admitted {
                let size: i64 = match self.files[i].size {
                    Some(s) => s,
                    None => 0,
                };
                let take: bool = match best {
                    None => true,
                    Some(b) => {
                        let old_size: i64 = match self.files[b].size {
                            Some(s) => s,
                            None => 0,
                        };
                        size >= old_size
                    },
                };
                if take {
                    proof {
                        assert forall|j: int|
                            0 <= j < next.len() && (video_only ==> (
                            #[trigger] next[j]).video_like()) implies file_size(next[j])
                            < file_size(next[i as int]) || (file_size(next[j]) == file_size(
                            next[i as int],
                        ) && j <= i) by {
                            if j < i {
                                assert(seen[j] == next[j]);
                                if best is None {
                                    assert(!self.files@[j].video_like());
                                }
                            }
                        }
                    }
                    best = Some(i);
                } else {
                    proof {
                        let b = best->0 as int;
                        assert(seen[b] == next[b]);
                        assert forall|j: int|
                            0 <= j < next.len() && (video_only ==> (
                            #[trigger] next[j]).video_like()) implies file_size(next[j])
                            < file_size(next[b]) || (file_size(next[j]) == file_size(next[b]) && j
                            <= b) by {
                            if j < i {
                                assert(seen[j] == next[j]);
                            }
                        }
                    }
                }
            } else {
                proof {
                    if let Some(b) = best {
                        let b = b as int;
                        assert(seen[b] == next[b]);
                        assert forall|j: int|
                            0 <= j < next.len() && (video_only ==> (
                            #[trigger] next[j]).video_like()) implies file_size(next[j])
                            < file_size(next[b]) || (file_size(next[j]) == file_size(next[b]) && j
                            <= b) by {
                            if j < i {
                                assert(seen[j] == next[j]);
                            }
                        }
                    }
                }
            }
            i = i + 1;
        }
        proof {
            assert(self.files@.take(n as int) == self.files@);
            if let Some(b) = best {
                assert(self.files@[b as int].video_like() || !video_only);
            }
        }
        best
    }

    /// The file to play by default: the largest file that looks like a video,
    /// else the largest file; of files equally large, the last one.
    pub fn pick_video_file(&self) -> (r: Option<&TorrentFile>)
        ensures
            r is None <==> self.files@.len() == 0,
            r matches Some(f) ==> exists|i: int|
                #[trigger] is_pick(self.files@, i) && *f == self.files@[i],
            r matches Some(f) ==> forall|j: int|
                0 <= j < self.files@.len() && (#[trigger] self.files@[j]).video_like() ==> (
                match self.files@[j].size {
                    Some(n) => n as int,
                    None => 0,
                }) <= (match f.size {
                    Some(n) => n as int,
                    None => 0,
                }),
    {
        match self.largest(true) {
            Some(i) => {
                proof {
                    assert(self.files@[i as int].video_like());
                    assert(is_pick(self.files@, i as int));
                }
                Some(&self.files[i])
            },
            None => match self.largest(false) {
                Some(i) => {
                    proof {
                        assert(is_pick(self.files@, i as int));
                    }
                    Some(&self.files[i])
                },
                None => None,
            },
        }
    }
}

/// The extensions of video files.
pub open spec fn video_extension(name: Seq<char>) -> bool {
    ||| ends(name, ".mkv"@)
    ||| ends(name, ".mp4"@)
    ||| ends(name, ".avi"@)
    ||| ends(name, ".mov"@)
    ||| ends(name, ".m4v"@)
    ||| ends(name, ".webm"@)
    ||| ends(name, ".ts"@)
    ||| ends(name, ".m2ts"@)
    ||| ends(name, ".wmv"@)
    ||| ends(name, ".flv"@)
}

impl TorrentFile {
    /// Whether a file looks like a video, by its type or by its name.
    pub open spec fn video_like(self) -> bool {
        ||| begins(text_or(self.mimetype, Seq::empty()), "video/"@)
        ||| video_extension(lower(text_or(self.name, Seq::empty())))
    }

    /// Whether the file looks like a video: by its media type, or by the
    /// extension of its name in either case.
    pub fn is_video_like(&self) -> (r: bool)
        ensures
            r == self.video_like(),
            r <==> (self.mimetype matches Some(mime) && "video/"@.is_prefix_of(mime@)) || (
            self.name matches Some(name) && ({
                let n = lower(name@);
                ||| ".mkv"@.is_suffix_of(n)
                ||| ".mp4"@.is_suffix_of(n)
                ||| ".avi"@.is_suffix_of(n)
                ||| ".mov"@.is_suffix_of(n)
                ||| ".m4v"@.is_suffix_of(n)
                ||| ".webm"@.is_suffix_of(n)
                ||| ".ts"@.is_suffix_of(n)
                ||| ".m2ts"@.is_suffix_of(n)
                ||| ".wmv"@.is_suffix_of(n)
                ||| ".flv"@.is_suffix_of(n)
            })),
    {
        proof {
            reveal_strlit("video/");
            reveal_strlit(".mkv");
            reveal_strlit(".mp4");
            reveal_strlit(".avi");
            reveal_strlit(".mov");
            reveal_strlit(".m4v");
            reveal_strlit(".webm");
            reveal_strlit(".ts");
            reveal_strlit(".m2ts");
            reveal_strlit(".wmv");
            reveal_strlit(".flv");
            if let Some(mime) = &self.mimetype {
                beginnings_and_ends(mime@, "video/"@);
            }
            if let Some(name) = &self.name {
                let n = lower(name@);
                beginnings_and_ends(n, ".mkv"@);
                beginnings_and_ends(n, ".mp4"@);
                beginnings_and_ends(n, ".avi"@);
                beginnings_and_ends(n, ".mov"@);
                beginnings_and_ends(n, ".m4v"@);
                beginnings_and_ends(n, ".webm"@);
                beginnings_and_ends(n, ".ts"@);
                beginnings_and_ends(n, ".m2ts"@);
                beginnings_and_ends(n, ".wmv"@);
                beginnings_and_ends(n, ".flv"@);
            }
        }
        let by_type: bool = match &self.mimetype {
            Some(mime) => starts_with(mime, "video/"),
            None => false,
        };
        if by_type {
            return true;
        }
        match &self.name {
            Some(name) => {
                let name = to_lower(name);
                ends_with(&name, ".mkv") || ends_with(&name, ".mp4") || ends_with(&name, ".avi")
                    || ends_with(&name, ".mov") || ends_with(&name, ".m4v") || ends_with(
                    &name,
                    ".webm",
                ) || ends_with(&name, ".ts") || ends_with(&name, ".m2ts") || ends_with(
                    &name,
                    ".wmv",
                ) || ends_with(&name, ".flv")
            },
            None => false,
        }
    }
}

/// What to ask of `createstream`.
#[derive(Debug, Clone, Default)]
pub struct CreateStreamOptions {
    pub id: i64,
    pub file_id: i64,
    pub kind: StreamKind,
    pub audio_index: Option<u32>,
    pub subtitle_index: Option<u32>,
    pub resolution_index: Option<u32>,
}

/// What to ask of `getstreamdata`.
#[derive(Debug, Clone, Default)]
pub struct GetStreamDataOverrides {
    pub audio_index: Option<u32>,
    pub subtitle_index: Option<u32>,
    pub resolution_index: Option<u32>,
}

/// Where a stream comes from.
#[derive(Debug, Clone, Copy, Default)]
pub enum StreamKind {
    #[default]
    Torrent,
    Usenet,
    Webdownload,
}

impl StreamKind {
    /// The name of the kind in the API.
    pub open spec fn name(self) -> Seq<char> {
        match self {
            StreamKind::Torrent => "torrent"@,
            StreamKind::Usenet => "usenet"@,
            StreamKind::Webdownload => "webdownload"@,
        }
    }

    /// The name of the kind in the API.
    pub fn as_str(&self) -> (r: &'static str)
        ensures
            r@ == self.name(),
    {
        match self {
            StreamKind::Torrent => "torrent",
            StreamKind::Usenet => "usenet",
            StreamKind::Webdownload => "webdownload",
        }
    }
}

/// A stream, as `createstream` and `getstreamdata` describe it.
#[derive(Debug, Clone)]
pub struct StreamData {
    pub hls_url: Option<String>,
    pub domain: Option<String>,
    pub presigned_token: Option<String>,
    pub mimetype: Option<String>,
    pub size: Option<i64>,
    pub needs_transcoding: Option<bool>,
    pub is_transcoding: Option<bool>,
    pub open_subtitles_hash: Option<String>,
    pub intro_information: Option<IntroInformation>,
    pub metadata: Option<StreamMetadata>,
}

/// Where the intro of an episode lies.
#[derive(Debug, Clone)]
pub struct IntroInformation {
    pub start_time: Option<Double>,
    pub end_time: Option<Double>,
    pub title: Option<String>,
}

/// The tracks of a stream.
#[derive(Debug, Clone, Default)]
pub struct StreamMetadata {
    pub video: Option<VideoTrack>,
    pub audios: Vec<AudioTrack>,
    pub subtitles: Vec<SubtitleTrack>,
}

/// A video track.
#[derive(Debug, Clone)]
pub struct VideoTrack {
    pub codec: Option<String>,
    pub width: Option<u32>,
    pub height: Option<u32>,
    pub frame_rate: Option<String>,
    pub bitrate: Option<String>,
    pub duration: Option<String>,
    pub pixel_format: Option<String>,
}

/// An audio track.
#[derive(Debug, Clone)]
pub struct AudioTrack {
    pub index: Option<u32>,
    pub codec: Option<String>,
    pub channels: Option<u32>,
    pub language: Option<String>,
    pub language_full: Option<String>,
    pub title: Option<String>,
    pub default: Option<bool>,
}

/// A subtitle track.
#[derive(Debug, Clone)]
pub struct SubtitleTrack {
    pub index: Option<u32>,
    pub codec: Option<String>,
    pub language: Option<String>,
    pub language_full: Option<String>,
    pub title: Option<String>,
    pub default: Option<bool>,
}

// ---------------------------------------------------------------------------
// Laws
// ---------------------------------------------------------------------------

/// The position of the file to play.
pub open spec fn pick_index(files: Seq<TorrentFile>) -> int {
    choose|i: int| is_pick(files, i)
}

/// At most one file of a torrent is the one to play.
pub proof fn pick_is_unique(files: Seq<TorrentFile>, i: int, j: int)
    requires
        is_pick(files, i),
        is_pick(files, j),
    ensures
        i == j,
{
    assert(file_size(files[j]) <= file_size(files[i]));
}

/// Where a torrent holds a video, the file to play is one.
pub proof fn pick_prefers_video(files: Seq<TorrentFile>, i: int)
    requires
        is_pick(files, i),
        has_video(files),
    ensures
        files[i].video_like(),
{
}

/// An envelope gives a payload exactly where it reports success and has one.
pub proof fn payload_needs_success<T>(env: Envelope<T>)
    ensures
        envelope_outcome(env) is Ok <==> env.success && env.data is Some,
{
}

/// A refusal keeps the code that the API gave.
pub proof fn refusal_keeps_code<T>(env: Envelope<T>, code: String)
    requires
        !env.success,
        env.error == Some(code),
    ensures
        envelope_outcome(env) matches Err(TorboxErrorView::Api { code: c, .. }) && c == code@,
{
}

} // verus!
