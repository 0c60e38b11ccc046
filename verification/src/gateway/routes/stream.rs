//! Torrent routes.
//!
//! A client creates a torrent, plays a file of it at `/{infoHash}/{fileIdx}`,
//! asks for its progress and removes it. Removing drops what this gateway
//! remembers and leaves the Torbox account as it is.
use vstd::prelude::*;
use vstd::utf8::*;

use crate::gateway::routes::helpers::{
    build_magnet, err_response, error_response, info_hash_from_magnet, magnet_source,
    minimal_magnet, normalize_info_hash, torbox_response, torbox_to_response,
};
use crate::gateway::state::{
    forgotten, forgotten_is_unknown, known, learnt, learnt_is_known, AppState, Mappings,
    TorrentMapping,
};
use crate::info_hash::normalized_hash;
use crate::json::{
    i64_or_null, json_object, json_opt_i64, json_opt_text, json_text, no_members, push_member,
    text_or_null, Double, Json, JsonView, ONE_BITS,
};
use crate::response::{
    add_header, json_reply, json_response, redirect, redirect_response, with_header, Response,
    ResponseView, BAD_REQUEST, NOT_FOUND, OK, TEMPORARY_REDIRECT,
};
use crate::text::{begins, opt_text, starts_with, trim, trimmed};
use crate::torbox::TorboxError;

verus! {

// ---------------------------------------------------------------------------
// Creating
// ---------------------------------------------------------------------------

/// What a client sends to create a torrent.
#[derive(Debug)]
pub struct CreatePayload {
    /// A magnet link.
    pub torrent: Option<String>,
    /// The other name that some clients give the magnet link.
    pub magnet: Option<String>,
    /// Some clients send the info-hash in place of a magnet link.
    pub info_hash: Option<String>,
}

/// What a [`CreatePayload`] stands for.
pub struct CreatePayloadView {
    pub torrent: Option<Seq<char>>,
    pub magnet: Option<Seq<char>>,
    pub info_hash: Option<Seq<char>>,
}

impl View for CreatePayload {
    type V = CreatePayloadView;

    open spec fn view(&self) -> CreatePayloadView {
        CreatePayloadView {
            torrent: opt_text(self.torrent),
            magnet: opt_text(self.magnet),
            info_hash: opt_text(self.info_hash),
        }
    }
}

/// A payload that says nothing.
pub open spec fn empty_payload() -> CreatePayloadView {
    CreatePayloadView { torrent: None, magnet: None, info_hash: None }
}

impl Default for CreatePayload {
    fn default() -> (r: Self)
        ensures
            r@ == empty_payload(),
    {
        CreatePayload { torrent: None, magnet: None, info_hash: None }
    }
}

/// What a body stands for, given what it decodes to as JSON. Some clients send
/// a bare magnet link.
pub open spec fn payload_of(raw: Seq<u8>, decoded: Option<CreatePayload>) -> CreatePayloadView {
    if raw.len() == 0 {
        empty_payload()
    } else {
        match decoded {
            Some(payload) => payload@,
            None => if valid_utf8(raw) && begins(trimmed(decode_utf8(raw)), "magnet:"@) {
                CreatePayloadView { torrent: Some(trimmed(decode_utf8(raw))), ..empty_payload() }
            } else {
                empty_payload()
            },
        }
    }
}

/// Reads the body of a request to create a torrent, given what it decodes to
/// as JSON.
pub fn parse_create_payload(raw: &[u8], decoded: Option<CreatePayload>) -> (r: CreatePayload)
    ensures
        r@ == payload_of(raw@, decoded),
{
    if raw.len() == 0 {
        return CreatePayload::default();
    }
    if let Some(payload) = decoded {
        return payload;
    }
    match std::str::from_utf8(raw) {
        Ok(s) => {
            let text = trim(s);
            if starts_with(text, "magnet:") {
                return CreatePayload {
                    torrent: Some(text.to_owned()),
                    magnet: None,
                    info_hash: None,
                };
            }
        },
        Err(_) => {},
    }
    CreatePayload::default()
}

/// A text, unless it is empty.
pub open spec fn non_empty(s: Option<Seq<char>>) -> Option<Seq<char>> {
    match s {
        Some(text) => if text.len() == 0 {
            None
        } else {
            s
        },
        None => None,
    }
}

fn drop_empty(s: Option<String>) -> (r: Option<String>)
    ensures
        opt_text(r) == non_empty(opt_text(s)),
{
    match s {
        Some(text) => {
            if text.as_str().is_empty() {
                None
            } else {
                Some(text)
            }
        },
        None => None,
    }
}

/// The magnet link of a payload.
pub open spec fn payload_magnet(payload: CreatePayloadView) -> Option<Seq<char>> {
    non_empty(
        match payload.torrent {
            Some(link) => Some(link),
            None => payload.magnet,
        },
    )
}

/// What a client reads that names no info-hash.
pub const MISSING_HASH: &'static str =
    "create: missing info_hash (provide a magnet URI in `torrent`/`magnet` or pass it via URL)";

/// The torrent that a request creates.
#[derive(Debug)]
pub struct CreateRequest {
    pub info_hash: String,
    pub magnet: String,
}

/// What a [`CreateRequest`] stands for.
pub struct CreateRequestView {
    pub info_hash: Seq<char>,
    pub magnet: Seq<char>,
}

impl View for CreateRequest {
    type V = CreateRequestView;

    open spec fn view(&self) -> CreateRequestView {
        CreateRequestView { info_hash: self.info_hash@, magnet: self.magnet@ }
    }
}

/// The info-hash that a request names: in its path, by its magnet link, or in
/// its payload.
pub open spec fn named_hash(
    path: Option<Seq<char>>,
    magnet_hash: Option<Seq<char>>,
    payload_hash: Option<Seq<char>>,
) -> Option<Seq<char>> {
    match non_empty(path) {
        Some(h) => Some(h),
        None => match magnet_hash {
            Some(h) => Some(h),
            None => payload_hash,
        },
    }
}

/// What becomes of a request to create a torrent, given its magnet link and the
/// info-hash that the link names.
pub open spec fn create_outcome(
    path: Option<Seq<char>>,
    magnet: Option<Seq<char>>,
    magnet_hash: Option<Seq<char>>,
    payload_hash: Option<Seq<char>>,
) -> Result<CreateRequestView, ResponseView> {
    match named_hash(path, magnet_hash, payload_hash) {
        Some(h) => Ok(
            CreateRequestView {
                info_hash: normalized_hash(h),
                magnet: match magnet {
                    Some(link) => link,
                    None => minimal_magnet(normalized_hash(h)),
                },
            },
        ),
        None => Err(error_response(BAD_REQUEST, MISSING_HASH@)),
    }
}

/// What an outcome of [`create_request`] stands for.
pub open spec fn create_result(r: Result<CreateRequest, Response>) -> Result<
    CreateRequestView,
    ResponseView,
> {
    match r {
        Ok(request) => Ok(request@),
        Err(reply) => Err(reply@),
    }
}

fn take_magnet(torrent: Option<String>, magnet: Option<String>) -> (r: Option<String>)
    ensures
        opt_text(r) == non_empty(
            match opt_text(torrent) {
                Some(link) => Some(link),
                None => opt_text(magnet),
            },
        ),
{
    match torrent {
        Some(link) => drop_empty(Some(link)),
        None => drop_empty(magnet),
    }
}

/// Reads what to create, given the magnet link of the payload and the
/// info-hash that it names.
fn create_with(
    path_info_hash: Option<String>,
    magnet: Option<String>,
    magnet_hash: Option<String>,
    payload_hash: Option<String>,
) -> (r: Result<CreateRequest, Response>)
    ensures
        create_result(r) == create_outcome(
            opt_text(path_info_hash),
            opt_text(magnet),
            opt_text(magnet_hash),
            opt_text(payload_hash),
        ),
{
    let named = match drop_empty(path_info_hash) {
        Some(h) => Some(h),
        None => match magnet_hash {
            Some(h) => Some(h),
            None => payload_hash,
        },
    };
    match named {
        Some(h) => {
            let info_hash = normalize_info_hash(&h);
            let link = match magnet {
                Some(link) => link,
                None => build_magnet(&info_hash),
            };
            Ok(CreateRequest { info_hash, magnet: link })
        },
        None => Err(err_response(BAD_REQUEST, MISSING_HASH)),
    }
}

/// Reads what a request to create a torrent asks for, given the info-hash that
/// its magnet link names.
pub fn create_request_with(
    path_info_hash: Option<String>,
    payload: CreatePayload,
    magnet_hash: Option<String>,
) -> (r: Result<CreateRequest, Response>)
    ensures
        create_result(r) == create_outcome(
            opt_text(path_info_hash),
            payload_magnet(payload@),
            opt_text(magnet_hash),
            payload@.info_hash,
        ),
{
    let magnet = take_magnet(payload.torrent, payload.magnet);
    create_with(path_info_hash, magnet, magnet_hash, payload.info_hash)
}

/// The info-hash that a magnet link names, where there is a link.
pub open spec fn hash_of_link(link: Option<Seq<char>>) -> Option<Seq<char>> {
    match link {
        Some(text) => magnet_source(text),
        None => None,
    }
}

/// Reads what a request to create a torrent asks for.
pub fn create_request(path_info_hash: Option<String>, payload: CreatePayload) -> (r: Result<
    CreateRequest,
    Response,
>)
    ensures
        create_result(r) == create_outcome(
            opt_text(path_info_hash),
            payload_magnet(payload@),
            hash_of_link(payload_magnet(payload@)),
            payload@.info_hash,
        ),
{
    let magnet = take_magnet(payload.torrent, payload.magnet);
    let magnet_hash = match &magnet {
        Some(link) => info_hash_from_magnet(link),
        None => None,
    };
    create_with(path_info_hash, magnet, magnet_hash, payload.info_hash)
}

/// The document that answers the creation of a torrent.
pub open spec fn created_document(info_hash: Seq<char>, mapping: TorrentMapping) -> JsonView {
    JsonView::Object(
        seq![
            ("ok"@, JsonView::Bool(true)),
            ("infoHash"@, JsonView::Str(info_hash)),
            ("fileIdx"@, JsonView::Int(mapping.file_id as int)),
            ("fileName"@, text_or_null(mapping.file_name)),
            ("size"@, i64_or_null(mapping.size)),
            ("torbox_id"@, JsonView::Int(mapping.torrent_id as int)),
        ],
    )
}

/// Answers the creation of a torrent, once the mapping is there.
pub fn create_reply(info_hash: &str, mapping: &TorrentMapping) -> (r: Response)
    ensures
        r@ == json_response(OK, created_document(info_hash@, *mapping)),
{
    let mut members = no_members();
    push_member(&mut members, "ok", Json::Bool(true));
    push_member(&mut members, "infoHash", json_text(info_hash));
    push_member(&mut members, "fileIdx", Json::Int(mapping.file_id));
    push_member(&mut members, "fileName", json_opt_text(&mapping.file_name));
    push_member(&mut members, "size", json_opt_i64(mapping.size));
    push_member(&mut members, "torbox_id", Json::Int(mapping.torrent_id));
    let document = json_object(members);
    proof {
        assert(document@->Object_0 =~= created_document(info_hash@, *mapping)->Object_0);
    }
    json_reply(OK, document)
}

// ---------------------------------------------------------------------------
// Progress
// ---------------------------------------------------------------------------

/// The whole of a file.
pub open spec fn complete() -> JsonView {
    JsonView::Double(Double { bits: ONE_BITS })
}

/// The progress of a torrent: what is mapped is there in full.
pub open spec fn torrent_stats_document(
    info_hash: Seq<char>,
    mapping: TorrentMapping,
) -> JsonView {
    JsonView::Object(
        seq![
            ("infoHash"@, JsonView::Str(info_hash)),
            ("name"@, text_or_null(mapping.file_name)),
            ("downloaded"@, i64_or_null(mapping.size)),
            ("uploaded"@, JsonView::Int(0)),
            ("downloadSpeed"@, JsonView::Int(0)),
            ("uploadSpeed"@, JsonView::Int(0)),
            ("peers"@, JsonView::Int(0)),
            ("seeds"@, JsonView::Int(0)),
            ("progress"@, complete()),
            ("ready"@, JsonView::Bool(true)),
        ],
    )
}

/// The reply for a torrent that is not mapped.
pub open spec fn not_registered() -> ResponseView {
    error_response(NOT_FOUND, "torrent not registered"@)
}

/// The reply to a request for the progress of a torrent.
pub open spec fn torrent_stats_reply(map: Mappings, info_hash: Seq<char>) -> ResponseView {
    match known(map, normalized_hash(info_hash)) {
        Some(mapping) => json_response(
            OK,
            torrent_stats_document(normalized_hash(info_hash), mapping),
        ),
        None => not_registered(),
    }
}

/// Answers a request for the progress of a torrent.
pub fn torrent_stats(state: &AppState, info_hash: &str) -> (r: Response)
    ensures
        r@ == torrent_stats_reply(state.mappings@, info_hash@),
{
    let normalized = normalize_info_hash(info_hash);
    match state.get_mapping(&normalized) {
        Some(mapping) => {
            let mut members = no_members();
            push_member(&mut members, "infoHash", json_text(&normalized));
            push_member(&mut members, "name", json_opt_text(&mapping.file_name));
            push_member(&mut members, "downloaded", json_opt_i64(mapping.size));
            push_member(&mut members, "uploaded", Json::Int(0));
            push_member(&mut members, "downloadSpeed", Json::Int(0));
            push_member(&mut members, "uploadSpeed", Json::Int(0));
            push_member(&mut members, "peers", Json::Int(0));
            push_member(&mut members, "seeds", Json::Int(0));
            push_member(&mut members, "progress", Json::Double(Double { bits: ONE_BITS }));
            push_member(&mut members, "ready", Json::Bool(true));
            let document = json_object(members);
            proof {
                assert(document@->Object_0 =~= torrent_stats_document(
                    normalized@,
                    *mapping,
                )->Object_0);
            }
            json_reply(OK, document)
        },
        None => err_response(NOT_FOUND, "torrent not registered"),
    }
}

/// The progress of a file of a torrent.
pub open spec fn file_stats_document(
    info_hash: Seq<char>,
    file_idx: i64,
    mapping: TorrentMapping,
) -> JsonView {
    JsonView::Object(
        seq![
            ("infoHash"@, JsonView::Str(info_hash)),
            ("fileIdx"@, JsonView::Int(file_idx as int)),
            ("name"@, text_or_null(mapping.file_name)),
            ("size"@, i64_or_null(mapping.size)),
            ("downloaded"@, i64_or_null(mapping.size)),
            ("progress"@, complete()),
            ("ready"@, JsonView::Bool(true)),
        ],
    )
}

/// The reply to a request for the progress of a file.
pub open spec fn file_stats_reply(
    map: Mappings,
    info_hash: Seq<char>,
    file_idx: i64,
) -> ResponseView {
    match known(map, normalized_hash(info_hash)) {
        Some(mapping) => json_response(
            OK,
            file_stats_document(normalized_hash(info_hash), file_idx, mapping),
        ),
        None => not_registered(),
    }
}

/// Answers a request for the progress of a file.
pub fn file_stats(state: &AppState, info_hash: &str, file_idx: i64) -> (r: Response)
    ensures
        r@ == file_stats_reply(state.mappings@, info_hash@, file_idx),
{
    let normalized = normalize_info_hash(info_hash);
    match state.get_mapping(&normalized) {
        Some(mapping) => {
            let mut members = no_members();
            push_member(&mut members, "infoHash", json_text(&normalized));
            push_member(&mut members, "fileIdx", Json::Int(file_idx));
            push_member(&mut members, "name", json_opt_text(&mapping.file_name));
            push_member(&mut members, "size", json_opt_i64(mapping.size));
            push_member(&mut members, "downloaded", json_opt_i64(mapping.size));
            push_member(&mut members, "progress", Json::Double(Double { bits: ONE_BITS }));
            push_member(&mut members, "ready", Json::Bool(true));
            let document = json_object(members);
            proof {
                assert(document@->Object_0 =~= file_stats_document(
                    normalized@,
                    file_idx,
                    *mapping,
                )->Object_0);
            }
            json_reply(OK, document)
        },
        None => err_response(NOT_FOUND, "torrent not registered"),
    }
}

// ---------------------------------------------------------------------------
// Removing
// ---------------------------------------------------------------------------

/// Forgets a torrent, whether it was known or not.
pub fn remove_torrent(state: &mut AppState, info_hash: &str) -> (r: Response)
    ensures
        r@ == json_response(OK, JsonView::Object(seq![("ok"@, JsonView::Bool(true))])),
        final(state).mappings@ == forgotten(old(state).mappings@, normalized_hash(info_hash@)),
        final(state).torbox == old(state).torbox,
        final(state).cfg == old(state).cfg,
{
    let normalized = normalize_info_hash(info_hash);
    state.remove_mapping(&normalized);
    let mut members = no_members();
    push_member(&mut members, "ok", Json::Bool(true));
    json_reply(OK, json_object(members))
}

// ---------------------------------------------------------------------------
// Playing
// ---------------------------------------------------------------------------

/// The reply to a request for a file, given the link that Torbox made for it:
/// a redirect, with the name of the file where a header can carry it.
pub open spec fn stream_file_reply(
    file_name: Option<Seq<char>>,
    link: Result<Seq<char>, ResponseView>,
) -> ResponseView {
    match link {
        Ok(url) => {
            let reply = redirect_response(TEMPORARY_REDIRECT, url);
            match file_name {
                Some(name) => with_header(reply, "x-original-filename"@, name),
                None => reply,
            }
        },
        Err(reply) => reply,
    }
}

/// Answers a request for a file, once Torbox has made a link for it.
pub fn stream_file(mapping: &TorrentMapping, link: Result<String, TorboxError>) -> (r: Response)
    ensures
        r@ == stream_file_reply(
            opt_text(mapping.file_name),
            match link {
                Ok(url) => Ok(url@),
                Err(e) => Err(torbox_response(e@)),
            },
        ),
{
    match link {
        Ok(url) => {
            let reply = redirect(TEMPORARY_REDIRECT, &url);
            match &mapping.file_name {
                Some(name) => add_header(reply, "x-original-filename", name),
                None => reply,
            }
        },
        Err(e) => torbox_to_response(e),
    }
}

// ---------------------------------------------------------------------------
// Laws
// ---------------------------------------------------------------------------

/// A torrent that was removed is not registered any more.
pub proof fn removed_is_not_registered(map: Mappings, info_hash: Seq<char>, file_idx: i64)
    ensures
        torrent_stats_reply(forgotten(map, normalized_hash(info_hash)), info_hash)
            == not_registered(),
        file_stats_reply(forgotten(map, normalized_hash(info_hash)), info_hash, file_idx)
            == not_registered(),
{
    forgotten_is_unknown(map, normalized_hash(info_hash), normalized_hash(info_hash));
}

/// A torrent that was learnt is registered, and its file is there in full.
pub proof fn learnt_is_registered(
    map: Mappings,
    info_hash: Seq<char>,
    mapping: TorrentMapping,
    file_idx: i64,
)
    ensures
        torrent_stats_reply(learnt(map, normalized_hash(info_hash), mapping), info_hash)
            == json_response(OK, torrent_stats_document(normalized_hash(info_hash), mapping)),
        file_stats_reply(learnt(map, normalized_hash(info_hash), mapping), info_hash, file_idx)
            == json_response(
            OK,
            file_stats_document(normalized_hash(info_hash), file_idx, mapping),
        ),
{
    learnt_is_known(map, normalized_hash(info_hash), mapping, normalized_hash(info_hash));
}

/// The info-hash in the path of a request decides what is created, whatever
/// the payload says.
pub proof fn path_hash_wins(
    path: Seq<char>,
    magnet: Option<Seq<char>>,
    magnet_hash: Option<Seq<char>>,
    payload_hash: Option<Seq<char>>,
)
    requires
        path.len() > 0,
    ensures
        create_outcome(Some(path), magnet, magnet_hash, payload_hash) matches Ok(request)
            && request.info_hash == normalized_hash(path),
{
}

} // verus!
