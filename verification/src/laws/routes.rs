//! Errors, sources, mappings, and how a torrent gets ready.
use vstd::prelude::*;
use vstd::utf8::*;

use crate::bindings::{
    is_header_value, pair_texts, parsed_url, percent_byte, percent_encoded, UrlView,
};
use crate::gateway::routes::ensure::{
    file_with_id, lemma_file_with_id, lemma_pick_exists, reusable, served_file, Action, ActionView,
    Ensure, Event, Phase,
};
use crate::gateway::routes::helpers::{
    error_response, hash_of_topic, local_source, local_target, magnet_hash, magnet_source,
    media_request, media_source, media_target, minimal_magnet, topic_hash, torbox_response, url_encoded,
};
use crate::gateway::state::{Mappings, TorrentMapping};
use crate::info_hash::{is_base32_hash, is_hex_hash, normalized_hash};
use crate::json::{Json, JsonView};
use crate::laws::text::{beginnings_and_ends, numbers_are_read_back};
use crate::laws::torbox::{
    absent_hash_is_not_found, downloading_is_not_ready, first_hash_is_found, is_film_extension,
    no_video_is_larger_than_the_pick,
};
use crate::response::{
    json_response, playlist_response, redirect_response, text_response, with_header, Body, BodyView,
    Response, ResponseView,
};
use crate::text::{lower, number_of, signed_decimal, trimmed};
use crate::torbox::{
    pick_index, torbox_message, CreatedTorrent, TorboxError, TorboxErrorView,
    TorrentFile, TorrentRecord,
};

verus! {

// ---------------------------------------------------------------------------
// Replies
// ---------------------------------------------------------------------------

/// The shapes of replies: a JSON document, plain text, and a playlist that
/// nobody may keep.
pub proof fn replies_have_their_types(status: u16, document: JsonView, text: Seq<char>)
    ensures
        json_response(status, document).status == status,
        json_response(status, document).headers == seq![("content-type"@, "application/json"@)],
        json_response(status, document).body == BodyView::Json(document),
        text_response(status, text).status == status,
        text_response(status, text).headers == seq![
            ("content-type"@, "text/plain; charset=utf-8"@),
        ],
        text_response(status, text).body == BodyView::Text(text),
        playlist_response(text).status == 200,
        playlist_response(text).headers.len() == 2,
        playlist_response(text).headers[0] == (
            "content-type"@,
            "application/vnd.apple.mpegurl"@,
        ),
        playlist_response(text).headers[1] == ("cache-control"@, "no-store"@),
        playlist_response(text).body == BodyView::Text(text),
{
}

/// A redirect has its status, its location and no body, wherever a header can
/// carry the location; otherwise it is an internal error.
pub proof fn redirects_have_a_location(status: u16, location: Seq<char>)
    ensures
        is_header_value(location) ==> redirect_response(status, location) == (ResponseView {
            status,
            headers: seq![("location"@, location)],
            body: BodyView::Empty,
        }),
        !is_header_value(location) ==> redirect_response(status, location).status == 500
            && redirect_response(status, location).body == BodyView::Text(
            "failed to parse header value"@,
        ),
{
}

/// A header is added behind the others, and nothing else changes.
pub proof fn headers_are_added(reply: ResponseView, name: Seq<char>, value: Seq<char>)
    ensures
        with_header(reply, name, value).status == reply.status,
        with_header(reply, name, value).body == reply.body,
        is_header_value(value) ==> with_header(reply, name, value).headers == reply.headers.push(
            (name, value),
        ),
        !is_header_value(value) ==> with_header(reply, name, value).headers == reply.headers,
{
}

/// A failed request is answered with its status and with one member that says
/// why.
pub proof fn failures_say_why(status: u16, message: Seq<char>)
    ensures
        error_response(status, message).status == status,
        error_response(status, message).headers == seq![("content-type"@, "application/json"@)],
        error_response(status, message).body == BodyView::Json(
            JsonView::Object(seq![("error"@, JsonView::Str(message))]),
        ),
{
}

/// A refusal of the API is answered by its code: the two about the key with
/// 401, the one about the plan with 402, the one about a missing item with
/// 404, and every other with 502; an error of another kind with 502. The
/// message is told in each case.
pub proof fn refusals_have_their_status(e: TorboxErrorView)
    ensures
        torbox_response(e).status == 401 <==> (e matches TorboxErrorView::Api { code, .. } && (code
            == "NO_AUTH"@ || code == "BAD_TOKEN"@)),
        torbox_response(e).status == 402 <==> (e matches TorboxErrorView::Api { code, .. } && code
            == "PLAN_RESTRICTED_FEATURE"@),
        torbox_response(e).status == 404 <==> (e matches TorboxErrorView::Api { code, .. } && code
            == "ITEM_NOT_FOUND"@),
        torbox_response(e).status == 401 || torbox_response(e).status == 402 || torbox_response(
            e,
        ).status == 404 || torbox_response(e).status == 502,
        torbox_response(e).body == BodyView::Json(
            JsonView::Object(seq![("error"@, JsonView::Str(torbox_message(e)))]),
        ),
{
    reveal_strlit("NO_AUTH");
    reveal_strlit("BAD_TOKEN");
    reveal_strlit("PLAN_RESTRICTED_FEATURE");
    reveal_strlit("ITEM_NOT_FOUND");
    assert("NO_AUTH"@.len() == 7 && "BAD_TOKEN"@.len() == 9);
    assert("PLAN_RESTRICTED_FEATURE"@.len() == 23 && "ITEM_NOT_FOUND"@.len() == 14);
}

// ---------------------------------------------------------------------------
// Sources
// ---------------------------------------------------------------------------

/// A topic names the hash behind `urn:btih:`, where that is forty hexadecimal
/// or thirty-two base32 digits; no other topic names one.
pub proof fn topics_name_hashes(hash: Seq<char>, topic: Seq<char>)
    ensures
        is_hex_hash(trimmed(hash)) || is_base32_hash(trimmed(hash)) ==> hash_of_topic(
            "urn:btih:"@ + hash,
        ) == Some(normalized_hash(hash)),
        !is_hex_hash(trimmed(hash)) && !is_base32_hash(trimmed(hash)) ==> hash_of_topic(
            "urn:btih:"@ + hash,
        ) is None,
        !"urn:btih:"@.is_prefix_of(topic) ==> hash_of_topic(topic) is None,
{
    let t = "urn:btih:"@ + hash;
    assert(t.take("urn:btih:"@.len() as int) =~= "urn:btih:"@);
    assert(t.skip("urn:btih:"@.len() as int) =~= hash);
    beginnings_and_ends(topic, "urn:btih:"@);
}

/// A magnet link names the hash of its first topic that names one.
pub proof fn magnets_name_their_first_topic(url: UrlView, i: int)
    requires
        url.scheme == "magnet"@,
        0 <= i < url.query_pairs.len(),
        url.query_pairs[i].0 == "xt"@,
        hash_of_topic(url.query_pairs[i].1) is Some,
        forall|j: int|
            0 <= j < i ==> (#[trigger] url.query_pairs[j]).0 != "xt"@ || hash_of_topic(
                url.query_pairs[j].1,
            ) is None,
    ensures
        magnet_hash(url) == hash_of_topic(url.query_pairs[i].1),
{
    lemma_topic_from(url.query_pairs, 0, i);
}

proof fn lemma_topic_from(pairs: Seq<(Seq<char>, Seq<char>)>, from: int, i: int)
    requires
        0 <= from <= i < pairs.len(),
        pairs[i].0 == "xt"@,
        hash_of_topic(pairs[i].1) is Some,
        forall|j: int|
            from <= j < i ==> (#[trigger] pairs[j]).0 != "xt"@ || hash_of_topic(pairs[j].1) is None,
    ensures
        topic_hash(pairs, from) == hash_of_topic(pairs[i].1),
    decreases i - from,
{
    if from < i {
        assert(pairs[from].0 != "xt"@ || hash_of_topic(pairs[from].1) is None);
        lemma_topic_from(pairs, from + 1, i);
    }
}

/// A URL of another scheme, and a magnet link without such a topic, name no
/// hash.
pub proof fn other_links_name_none(url: UrlView)
    requires
        url.scheme != "magnet"@ || forall|j: int|
            0 <= j < url.query_pairs.len() ==> (#[trigger] url.query_pairs[j]).0 != "xt"@
                || hash_of_topic(url.query_pairs[j].1) is None,
    ensures
        magnet_hash(url) is None,
{
    if url.scheme == "magnet"@ {
        lemma_no_topic_from(url.query_pairs, 0);
    }
}

proof fn lemma_no_topic_from(pairs: Seq<(Seq<char>, Seq<char>)>, from: int)
    requires
        0 <= from <= pairs.len(),
        forall|j: int|
            0 <= j < pairs.len() ==> (#[trigger] pairs[j]).0 != "xt"@ || hash_of_topic(
                pairs[j].1,
            ) is None,
    ensures
        topic_hash(pairs, from) is None,
    decreases pairs.len() - from,
{
    if from < pairs.len() {
        assert(pairs[from].0 != "xt"@ || hash_of_topic(pairs[from].1) is None);
        lemma_no_topic_from(pairs, from + 1);
    }
}

/// The least magnet link.
pub proof fn magnets_are_minimal(hash: Seq<char>)
    ensures
        minimal_magnet(hash) == "magnet:?xt=urn:btih:"@ + lower(hash),
{
}

/// A URL of this server names the file whose number is its second segment, of
/// the torrent whose hash is its first, if that has thirty-two bytes or more.
pub proof fn local_urls_name_files(url: UrlView, segments: Seq<Seq<char>>, n: i64)
    requires
        url.path_segments == Some(segments),
        segments.len() >= 2,
        encode_utf8(segments[0]).len() >= 32,
        segments[1] == signed_decimal(n as int),
    ensures
        local_target(url) == Some((normalized_hash(segments[0]), n as int)),
        media_target(url) == Some((normalized_hash(segments[0]), n as int)),
{
    numbers_are_read_back(n as int, i64::MIN as int, i64::MAX as int);
}

/// A URL without two segments, or with a short first one, names no file of this
/// server; a magnet link then names the first file of its torrent.
pub proof fn other_urls_name_no_local_file(url: UrlView)
    requires
        url.path_segments is None || url.path_segments->Some_0.len() < 2 || encode_utf8(
            url.path_segments->Some_0[0],
        ).len() < 32,
    ensures
        local_target(url) is None,
        magnet_hash(url) is None ==> media_target(url) is None,
        magnet_hash(url) matches Some(hash) ==> media_target(url) == Some((hash, 0int)),
{
}

/// A media URL that names a file is served; one that names none, and a missing
/// or empty one, are bad requests, and each is told why.
pub proof fn media_urls_are_required(url: Seq<char>, hint: Seq<char>)
    ensures
        media_request(None, hint) matches Err(reply) && reply.status == 400 && reply.body
            == BodyView::Json(
            JsonView::Object(seq![("error"@, JsonView::Str("missing mediaURL"@))]),
        ),
        media_request(Some(Seq::empty()), hint) == media_request(None, hint),
        url.len() > 0 ==> (media_source(url) matches Some(target) ==> media_request(
            Some(url),
            hint,
        ) == Ok::<(Seq<char>, int), ResponseView>(target)),
        url.len() > 0 && media_source(url) is None ==> (media_request(Some(url), hint) matches Err(
            reply,
        ) && reply.status == 400 && reply.body == BodyView::Json(
            JsonView::Object(
                seq![
                    (
                        "error"@,
                        JsonView::Str(
                            "Could not derive a Torbox source from mediaURL="@ + url + hint,
                        ),
                    ),
                ],
            ),
        )),
{
}

/// Letters and digits are encoded as themselves, and every other byte as a
/// percent sign and two capital hexadecimal digits.
pub proof fn bytes_are_encoded(front: Seq<u8>, b: u8)
    ensures
        percent_encoded(Seq::empty()) == Seq::<char>::empty(),
        48 <= b <= 57 || 65 <= b <= 90 || 97 <= b <= 122 ==> percent_encoded(front.push(b))
            == percent_encoded(front).push(b as char),
        !(48 <= b <= 57 || 65 <= b <= 90 || 97 <= b <= 122) ==> ({
            let high = b / 16;
            let low = b % 16;
            percent_encoded(front.push(b)) == percent_encoded(front).push('%').push(
                (if high < 10 {
                    48 + high
                } else {
                    55 + high
                }) as char,
            ).push(
                (if low < 10 {
                    48 + low
                } else {
                    55 + low
                }) as char,
            )
        }),
{
    assert(front.push(b).drop_last() =~= front);
    let e = percent_encoded(front.push(b));
    assert(e == percent_encoded(front) + percent_byte(b));
    if 48 <= b <= 57 || 65 <= b <= 90 || 97 <= b <= 122 {
        assert(e =~= percent_encoded(front).push(b as char));
    } else {
        assert(e =~= percent_encoded(front).push('%').push(percent_byte(b)[1]).push(
            percent_byte(b)[2],
        ));
    }
}

/// The encoding of a text is that of its bytes in UTF-8.
pub proof fn texts_are_encoded_by_bytes(text: Seq<char>)
    ensures
        url_encoded(text) == percent_encoded(encode_utf8(text)),
{
}

// ---------------------------------------------------------------------------
// Getting a torrent ready
// ---------------------------------------------------------------------------

/// A mapping is used again exactly where one is known of the hash in normal
/// form, and no file is asked for or the very file that it is for.
pub proof fn mappings_are_used_again(map: Mappings, info_hash: Seq<char>, desired: Option<i64>)
    ensures
        ({
            let key = lower(normalized_hash(info_hash));
            &&& map.contains_key(key) && (desired is None || desired == Some(map[key].file_id))
                ==> reusable(map, info_hash, desired) == Some(map[key])
            &&& !map.contains_key(key) ==> reusable(map, info_hash, desired) is None
            &&& map.contains_key(key) && desired is Some && desired != Some(map[key].file_id)
                ==> reusable(map, info_hash, desired) is None
        }),
{
}

/// A record that is being downloaded, and is not through, is asked for again
/// before the deadline: it is never stored.
pub proof fn downloading_records_are_polled(
    run: Ensure,
    record: TorrentRecord,
    state: String,
    deadline: u64,
    now: u64,
)
    requires
        run.phase == (Phase::Fetching { deadline: Some(deadline) }),
        now < deadline,
        record.download_state == Some(state),
        state@ == "downloading"@,
        record.progress matches Some(p) ==> p.bits < 0x3ff0_0000_0000_0000,
    ensures
        run.stepped(Event::Fetched(Ok(record)), now) == (
            Phase::Fetching { deadline: Some(deadline) },
            ActionView::SleepAndFetch(record.id),
        ),
{
    downloading_is_not_ready(record, state);
}

/// A record that is not downloaded yet: none of the five states, and progress
/// below one or none.
pub open spec fn is_on_its_way(record: TorrentRecord) -> bool {
    &&& record.download_state matches Some(s) ==> s@ != "cached"@ && s@ != "completed"@ && s@
        != "uploading"@ && s@ != "seeding"@ && s@ != "stalled (UP)"@
    &&& record.progress matches Some(p) ==> p.bits < 0x3ff0_0000_0000_0000
}

/// A record on its way, and one without files, is waited for until the deadline
/// and refused from then on, with 504 and the hash.
pub proof fn unready_records_are_waited_for(
    run: Ensure,
    record: TorrentRecord,
    deadline: u64,
    now: u64,
)
    requires
        run.phase == (Phase::Fetching { deadline: Some(deadline) }),
        is_on_its_way(record) || record.files@.len() == 0,
    ensures
        now < deadline ==> run.stepped(Event::Fetched(Ok(record)), now) == (
            run.phase,
            ActionView::SleepAndFetch(record.id),
        ),
        now >= deadline ==> run.stepped(Event::Fetched(Ok(record)), now).0 == Phase::Done && (
        run.stepped(Event::Fetched(Ok(record)), now).1 matches ActionView::Refuse(reply)
            && reply.status == 504 && reply.body == BodyView::Json(
            JsonView::Object(
                seq![
                    (
                        "error"@,
                        JsonView::Str(
                            "Torbox did not finish caching torrent "@ + run.hash@
                                + " within 120s"@,
                        ),
                    ),
                ],
            ),
        )),
{
}

/// The first record that comes sets the deadline, two minutes from then.
pub proof fn first_record_sets_the_deadline(run: Ensure, record: TorrentRecord, now: u64)
    requires
        run.phase == (Phase::Fetching { deadline: None }),
        is_on_its_way(record) || record.files@.len() == 0,
        now <= u64::MAX - 120_000,
    ensures
        run.stepped(Event::Fetched(Ok(record)), now) == (
            Phase::Fetching { deadline: Some((now + 120_000) as u64) },
            ActionView::SleepAndFetch(record.id),
        ),
{
}

/// A record of the account with the hash is used, the first of them: polled
/// while it is on its way, with two minutes to get ready.
pub proof fn listed_records_are_polled(
    run: Ensure,
    list: Vec<TorrentRecord>,
    i: int,
    now: u64,
)
    requires
        0 <= i < list@.len(),
        list@[i].hash matches Some(h) && lower(h@) == lower(run.hash@),
        forall|j: int|
            0 <= j < i ==> ((#[trigger] list@[j]).hash matches Some(h) ==> lower(h@) != lower(
                run.hash@,
            )),
        is_on_its_way(list@[i]) || list@[i].files@.len() == 0,
        now <= u64::MAX - 120_000,
    ensures
        run.stepped(Event::Listed(Ok(list)), now) == (
            Phase::Fetching { deadline: Some((now + 120_000) as u64) },
            ActionView::SleepAndFetch(list@[i].id),
        ),
{
    first_hash_is_found(list@, run.hash@, i);
}

/// Where the account has no record with the hash, the torrent is added by the
/// magnet link that the client gave, or by the least one.
pub proof fn absent_torrents_are_added(run: Ensure, list: Vec<TorrentRecord>, now: u64)
    requires
        forall|j: int|
            0 <= j < list@.len() ==> ((#[trigger] list@[j]).hash matches Some(h) ==> lower(h@)
                != lower(run.hash@)),
    ensures
        run.stepped(Event::Listed(Ok(list)), now) == (
            Phase::Creating,
            ActionView::Create(
                match run.magnet_hint {
                    Some(magnet) => magnet@,
                    None => "magnet:?xt=urn:btih:"@ + lower(run.hash@),
                },
            ),
        ),
{
    absent_hash_is_not_found(list@, run.hash@);
}

/// A torrent that was added is asked for by its number; without one the request
/// is refused with 502.
pub proof fn added_torrents_are_asked_for(run: Ensure, created: CreatedTorrent, now: u64)
    ensures
        created.id matches Some(id) ==> run.stepped(Event::Created(Ok(created)), now) == (
            Phase::Fetching { deadline: None },
            ActionView::Fetch(id),
        ),
        created.id is None ==> run.stepped(Event::Created(Ok(created)), now).0 == Phase::Done && (
        run.stepped(Event::Created(Ok(created)), now).1 matches ActionView::Refuse(reply)
            && reply.status == 502 && reply.body == BodyView::Json(
            JsonView::Object(
                seq![("error"@, JsonView::Str("Torbox createtorrent returned no id"@))],
            ),
        )),
{
}

/// An error of the upstream ends the run, and is what the request is answered
/// with, whatever was asked.
pub proof fn errors_end_the_run(run: Ensure, e: TorboxError, now: u64)
    ensures
        run.stepped(Event::Listed(Err(e)), now) == (
            Phase::Done,
            ActionView::Refuse(torbox_response(e@)),
        ),
        run.stepped(Event::Created(Err(e)), now) == (
            Phase::Done,
            ActionView::Refuse(torbox_response(e@)),
        ),
        run.stepped(Event::Fetched(Err(e)), now) == (
            Phase::Done,
            ActionView::Refuse(torbox_response(e@)),
        ),
{
}

/// Whether a mapping is of a torrent and one of its files, as they are, made at
/// a time, with no stream described yet.
pub open spec fn is_mapping_of(
    mapping: TorrentMapping,
    record: TorrentRecord,
    i: int,
    now: u64,
) -> bool {
    &&& 0 <= i < record.files@.len()
    &&& mapping.torrent_id == record.id
    &&& mapping.file_id == record.files@[i].id
    &&& mapping.file_name == record.files@[i].name
    &&& mapping.size == record.files@[i].size
    &&& mapping.last_used_at == now
    &&& mapping.last_stream is None
}

/// A record with files is stored once it is downloaded, be it past the deadline
/// or not: the mapping is of one of its files.
pub proof fn ready_records_are_stored(
    run: Ensure,
    record: TorrentRecord,
    now: u64,
) -> (i: int)
    requires
        run.phase is Fetching,
        record.files@.len() > 0,
        (record.download_state matches Some(s) && (s@ == "cached"@ || s@ == "completed"@ || s@
            == "uploading"@ || s@ == "seeding"@ || s@ == "stalled (UP)"@)) || (
        record.progress matches Some(p) && 0x3ff0_0000_0000_0000 <= p.bits
            <= 0x7ff0_0000_0000_0000),
    ensures
        run.stepped(Event::Fetched(Ok(record)), now).0 == Phase::Done,
        run.stepped(Event::Fetched(Ok(record)), now).1 matches ActionView::Store(mapping)
            && is_mapping_of(mapping, record, i, now),
        i == served_file(record.files@, run.desired_file_idx),
{
    crate::gateway::routes::ensure::served_file_is_there(record.files@, run.desired_file_idx);
    served_file(record.files@, run.desired_file_idx)
}

/// The file that is served is the first one with the number that is asked for.
pub proof fn asked_file_is_served(files: Seq<TorrentFile>, id: i64, i: int)
    requires
        0 <= i < files.len(),
        files[i].id == id,
        forall|j: int| 0 <= j < i ==> (#[trigger] files[j]).id != id,
    ensures
        served_file(files, Some(id)) == i,
{
    lemma_file_with_id(files, id, 0);
    lemma_asked_from(files, id, 0, i);
}

proof fn lemma_asked_from(files: Seq<TorrentFile>, id: i64, from: int, i: int)
    requires
        0 <= from <= i < files.len(),
        files[i].id == id,
        forall|j: int| from <= j < i ==> (#[trigger] files[j]).id != id,
    ensures
        file_with_id(files, id, from) == Some(i),
    decreases i - from,
{
    if from < i {
        assert(files[from].id != id);
        lemma_asked_from(files, id, from + 1, i);
    }
}

/// Where no file is asked for, or one that the torrent has not, no video of the
/// torrent is larger than the file that is served.
pub proof fn served_file_is_the_largest_video(
    files: Seq<TorrentFile>,
    desired: Option<i64>,
    j: int,
    ext: Seq<char>,
)
    requires
        desired matches Some(id) ==> forall|k: int|
            0 <= k < files.len() ==> (#[trigger] files[k]).id != id,
        0 <= j < files.len(),
        (files[j].mimetype matches Some(mime) && "video/"@.is_prefix_of(mime@)) || (
        files[j].name matches Some(name) && is_film_extension(ext) && ext.is_suffix_of(
            lower(name@),
        )),
    ensures
        ({
            let i = served_file(files, desired);
            &&& 0 <= i < files.len()
            &&& (match files[j].size {
                Some(n) => n as int,
                None => 0,
            }) <= (match files[i].size {
                Some(n) => n as int,
                None => 0,
            })
        }),
{
    if let Some(id) = desired {
        lemma_file_with_id(files, id, 0);
    }
    lemma_pick_exists(files);
    no_video_is_larger_than_the_pick(files, pick_index(files), j, ext);
}

/// The deadline never lies beyond what the clock can count.
pub proof fn deadlines_end_with_the_clock(run: Ensure, record: TorrentRecord, now: u64)
    requires
        run.phase == (Phase::Fetching { deadline: None }),
        is_on_its_way(record) || record.files@.len() == 0,
        u64::MAX - 120_000 < now < u64::MAX,
    ensures
        run.stepped(Event::Fetched(Ok(record)), now) == (
            Phase::Fetching { deadline: Some(u64::MAX) },
            ActionView::SleepAndFetch(record.id),
        ),
{
}

/// A record of the account that is downloaded and has files is stored at once.
pub proof fn ready_listed_records_are_stored(
    run: Ensure,
    list: Vec<TorrentRecord>,
    k: int,
    now: u64,
)
    requires
        0 <= k < list@.len(),
        list@[k].hash matches Some(h) && lower(h@) == lower(run.hash@),
        forall|j: int|
            0 <= j < k ==> ((#[trigger] list@[j]).hash matches Some(h) ==> lower(h@) != lower(
                run.hash@,
            )),
        list@[k].files@.len() > 0,
        (list@[k].download_state matches Some(s) && (s@ == "cached"@ || s@ == "completed"@ || s@
            == "uploading"@ || s@ == "seeding"@ || s@ == "stalled (UP)"@)) || (
        list@[k].progress matches Some(p) && 0x3ff0_0000_0000_0000 <= p.bits
            <= 0x7ff0_0000_0000_0000),
    ensures
        run.stepped(Event::Listed(Ok(list)), now).0 == Phase::Done,
        run.stepped(Event::Listed(Ok(list)), now).1 matches ActionView::Store(mapping)
            && is_mapping_of(
            mapping,
            list@[k],
            served_file(list@[k].files@, run.desired_file_idx),
            now,
        ),
{
    first_hash_is_found(list@, run.hash@, k);
    crate::gateway::routes::ensure::served_file_is_there(list@[k].files@, run.desired_file_idx);
}

/// What a text names is what the URL that it is read as names; a text that is no
/// URL names nothing.
pub proof fn texts_name_what_their_urls_name(text: Seq<char>, url: UrlView)
    ensures
        parsed_url(text) == Ok::<UrlView, Seq<char>>(url) ==> magnet_source(text) == magnet_hash(
            url,
        ) && local_source(text) == local_target(url) && media_source(text) == media_target(url),
        parsed_url(text) is Err ==> magnet_source(text) is None && local_source(text) is None
            && media_source(text) is None,
{
}

/// A URL of this server whose second segment is no number names no file.
pub proof fn names_of_files_are_numbers(url: UrlView, segments: Seq<Seq<char>>)
    requires
        url.path_segments == Some(segments),
        segments.len() >= 2,
        number_of(segments[1], true) is None || !(i64::MIN <= number_of(segments[1], true)->Some_0
            <= i64::MAX),
    ensures
        local_target(url) is None,
{
}

/// The numbers of the statuses, and how long to wait.
pub proof fn statuses_have_numbers()
    ensures
        crate::response::OK == 200,
        crate::response::FOUND == 302,
        crate::response::TEMPORARY_REDIRECT == 307,
        crate::response::BAD_REQUEST == 400,
        crate::response::UNAUTHORIZED == 401,
        crate::response::PAYMENT_REQUIRED == 402,
        crate::response::NOT_FOUND == 404,
        crate::response::INTERNAL_SERVER_ERROR == 500,
        crate::response::BAD_GATEWAY == 502,
        crate::response::SERVICE_UNAVAILABLE == 503,
        crate::response::GATEWAY_TIMEOUT == 504,
        crate::gateway::routes::ensure::TORRENT_READY_TIMEOUT == 120_000,
        crate::gateway::routes::ensure::TORRENT_POLL_INTERVAL == 1_500,
        crate::gateway::routes::hls::WARMUP_INTERVAL == 5_000,
        crate::gateway::routes::hls::WARMUP_RETRIES == 12,
        crate::gateway::routes::hls::CONVERT_TTL == 3_600_000,
{
}

/// Replies, actions and errors stand for what they hold.
pub proof fn values_stand_for_what_they_hold(
    reply: Response,
    text: String,
    document: Json,
    code: String,
    detail: String,
    id: i64,
    mapping: TorrentMapping,
)
    ensures
        reply@.status == reply.status,
        reply@.headers == pair_texts(reply.headers@),
        reply@.body == reply.body@,
        Body::Empty@ == BodyView::Empty,
        Body::Text(text)@ == BodyView::Text(text@),
        Body::Json(document)@ == BodyView::Json(document@),
        (TorboxError::Http(text))@ == TorboxErrorView::Http(text@),
        (TorboxError::BadJson(text))@ == TorboxErrorView::BadJson(text@),
        (TorboxError::Api { code, detail })@ == (TorboxErrorView::Api {
            code: code@,
            detail: detail@,
        }),
        (TorboxError::NoCode { detail })@ == (TorboxErrorView::NoCode { detail: detail@ }),
        Action::Create(text)@ == ActionView::Create(text@),
        Action::Fetch(id)@ == ActionView::Fetch(id),
        Action::SleepAndFetch(id)@ == ActionView::SleepAndFetch(id),
        Action::Store(mapping)@ == ActionView::Store(mapping),
        Action::Refuse(reply)@ == ActionView::Refuse(reply@),
{
}

} // verus!
