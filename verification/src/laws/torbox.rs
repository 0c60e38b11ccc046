//! Files, records, answers and requests of the Torbox API.
use vstd::prelude::*;

use crate::laws::text::beginnings_and_ends;
use crate::text::{decimal, ends, lower};
use crate::torbox::{
    answers_for, cached_outcome, envelope_outcome, first_with_hash, has_video, is_pick,
    parse_outcome, torbox_message, with_choices, CachedData, Envelope, StreamKind, TorboxClient,
    TorboxErrorView, TorrentFile, TorrentRecord,
};

verus! {

// ---------------------------------------------------------------------------
// Files
// ---------------------------------------------------------------------------

/// The ten extensions by which a file is known to be a video.
pub open spec fn is_film_extension(ext: Seq<char>) -> bool {
    ||| ext == ".mkv"@
    ||| ext == ".mp4"@
    ||| ext == ".avi"@
    ||| ext == ".mov"@
    ||| ext == ".m4v"@
    ||| ext == ".webm"@
    ||| ext == ".ts"@
    ||| ext == ".m2ts"@
    ||| ext == ".wmv"@
    ||| ext == ".flv"@
}

/// A file whose media type begins with `video/` is a video, whatever follows.
pub proof fn video_types_are_videos(f: TorrentFile, mime: String)
    requires
        f.mimetype == Some(mime),
        "video/"@.is_prefix_of(mime@),
    ensures
        f.video_like(),
{
    beginnings_and_ends(mime@, "video/"@);
}

/// A file whose name ends in one of ten extensions, in either case, is a video.
pub proof fn video_extensions_are_videos(f: TorrentFile, name: String)
    requires
        f.name == Some(name),
        ".mkv"@.is_suffix_of(lower(name@)) || ".mp4"@.is_suffix_of(lower(name@))
            || ".avi"@.is_suffix_of(lower(name@)) || ".mov"@.is_suffix_of(lower(name@))
            || ".m4v"@.is_suffix_of(lower(name@)) || ".webm"@.is_suffix_of(lower(name@))
            || ".ts"@.is_suffix_of(lower(name@)) || ".m2ts"@.is_suffix_of(lower(name@))
            || ".wmv"@.is_suffix_of(lower(name@)) || ".flv"@.is_suffix_of(lower(name@)),
    ensures
        f.video_like(),
{
    lemma_extensions(lower(name@));
}

proof fn lemma_extensions(n: Seq<char>)
    ensures
        ends(n, ".mkv"@) == ".mkv"@.is_suffix_of(n),
        ends(n, ".mp4"@) == ".mp4"@.is_suffix_of(n),
        ends(n, ".avi"@) == ".avi"@.is_suffix_of(n),
        ends(n, ".mov"@) == ".mov"@.is_suffix_of(n),
        ends(n, ".m4v"@) == ".m4v"@.is_suffix_of(n),
        ends(n, ".webm"@) == ".webm"@.is_suffix_of(n),
        ends(n, ".ts"@) == ".ts"@.is_suffix_of(n),
        ends(n, ".m2ts"@) == ".m2ts"@.is_suffix_of(n),
        ends(n, ".wmv"@) == ".wmv"@.is_suffix_of(n),
        ends(n, ".flv"@) == ".flv"@.is_suffix_of(n),
{
    beginnings_and_ends(n, ".mkv"@);
    beginnings_and_ends(n, ".mp4"@);
    beginnings_and_ends(n, ".avi"@);
    beginnings_and_ends(n, ".mov"@);
    beginnings_and_ends(n, ".m4v"@);
    beginnings_and_ends(n, ".webm"@);
    beginnings_and_ends(n, ".ts"@);
    beginnings_and_ends(n, ".m2ts"@);
    beginnings_and_ends(n, ".wmv"@);
    beginnings_and_ends(n, ".flv"@);
}

/// Nothing else is a video: neither its type begins with `video/`, nor its name
/// ends in one of the ten extensions.
pub proof fn other_files_are_no_videos(f: TorrentFile)
    requires
        f.mimetype matches Some(mime) ==> !"video/"@.is_prefix_of(mime@),
        f.name matches Some(name) ==> forall|ext: Seq<char>| #[trigger]
            is_film_extension(ext) ==> !ext.is_suffix_of(lower(name@)),
    ensures
        !f.video_like(),
{
    reveal_strlit("video/");
    reveal_strlit(".mkv");
    reveal_strlit(".mp4");
    reveal_strlit(".avi");
    reveal_strlit(".mov");
    reveal_strlit(".m4v");
    reveal_strlit(".webm");
    reveal_strlit(".ts");
    reveal_strlit(".m2ts");
    reveal_strlit(".wmv");
    reveal_strlit(".flv");
    if let Some(mime) = f.mimetype {
        beginnings_and_ends(mime@, "video/"@);
    }
    assert(is_film_extension(".mkv"@) && is_film_extension(".mp4"@) && is_film_extension(".avi"@)
        && is_film_extension(".mov"@) && is_film_extension(".m4v"@) && is_film_extension(".webm"@)
        && is_film_extension(".ts"@) && is_film_extension(".m2ts"@) && is_film_extension(".wmv"@)
        && is_film_extension(".flv"@));
    if let Some(name) = f.name {
        lemma_extensions(lower(name@));
    } else {
        assert(lower(Seq::empty()) =~= Seq::<char>::empty());
    }
}

/// No file of a torrent whose type begins with `video/`, or whose name ends in
/// one of the ten extensions, is larger than the file that is picked, which is a
/// video itself; of videos equally large, the last one is picked. A missing size
/// counts as nought.
pub proof fn no_video_is_larger_than_the_pick(
    files: Seq<TorrentFile>,
    i: int,
    j: int,
    ext: Seq<char>,
)
    requires
        is_pick(files, i),
        0 <= j < files.len(),
        (files[j].mimetype matches Some(mime) && "video/"@.is_prefix_of(mime@)) || (
        files[j].name matches Some(name) && is_film_extension(ext) && ext.is_suffix_of(
            lower(name@),
        )),
    ensures
        0 <= i < files.len(),
        files[i].video_like(),
        (match files[j].size {
            Some(n) => n as int,
            None => 0,
        }) <= (match files[i].size {
            Some(n) => n as int,
            None => 0,
        }),
        files[j].size == files[i].size ==> j <= i,
{
    if files[j].mimetype matches Some(mime) && "video/"@.is_prefix_of(mime@) {
        video_types_are_videos(files[j], files[j].mimetype->Some_0);
    } else {
        video_extensions_are_videos(files[j], files[j].name->Some_0);
    }
    assert(has_video(files));
}

/// Where no file is known to be a video, no file is larger than the picked one.
pub proof fn no_file_is_larger_without_videos(files: Seq<TorrentFile>, i: int, j: int)
    requires
        is_pick(files, i),
        0 <= j < files.len(),
        forall|k: int|
            0 <= k < files.len() ==> ((#[trigger] files[k]).mimetype matches Some(mime)
                ==> !"video/"@.is_prefix_of(mime@)) && (files[k].name matches Some(name)
                ==> forall|ext: Seq<char>| #[trigger]
                is_film_extension(ext) ==> !ext.is_suffix_of(lower(name@))),
    ensures
        (match files[j].size {
            Some(n) => n as int,
            None => 0,
        }) <= (match files[i].size {
            Some(n) => n as int,
            None => 0,
        }),
        files[j].size == files[i].size ==> j <= i,
{
    assert forall|k: int| 0 <= k < files.len() implies !(#[trigger] files[k]).video_like() by {
        other_files_are_no_videos(files[k]);
    }
    assert(!has_video(files));
}

// ---------------------------------------------------------------------------
// Records
// ---------------------------------------------------------------------------

/// A record counts as downloaded exactly where its state is one of five, or
/// its progress is at least one.
pub proof fn readiness_is_state_or_progress(record: TorrentRecord)
    ensures
        record.ready() <==> (record.download_state matches Some(s) && (s@ == "cached"@ || s@
            == "completed"@ || s@ == "uploading"@ || s@ == "seeding"@ || s@ == "stalled (UP)"@)) || (
        record.progress matches Some(p) && 0x3ff0_0000_0000_0000 <= p.bits as int
            <= 0x7ff0_0000_0000_0000),
{
}

/// A record that is being downloaded, and is not through, does not count as
/// downloaded.
pub proof fn downloading_is_not_ready(record: TorrentRecord, state: String)
    requires
        record.download_state == Some(state),
        state@ == "downloading"@,
        record.progress matches Some(p) ==> p.bits < 0x3ff0_0000_0000_0000,
    ensures
        !record.ready(),
{
    reveal_strlit("downloading");
    reveal_strlit("cached");
    reveal_strlit("completed");
    reveal_strlit("uploading");
    reveal_strlit("seeding");
    reveal_strlit("stalled (UP)");
    assert("downloading"@[0] != "cached"@[0]);
    assert("downloading"@[0] != "completed"@[0]);
    assert("downloading"@[0] != "uploading"@[0]);
    assert("downloading"@[0] != "seeding"@[0]);
    assert("downloading"@[0] != "stalled (UP)"@[0]);
}

/// Once a record counts as downloaded, more progress does not change that, as
/// long as it is a number.
pub proof fn progress_keeps_readiness(before: TorrentRecord, after: TorrentRecord)
    requires
        before.ready(),
        before.download_state == after.download_state,
        before.progress matches Some(p) ==> after.progress matches Some(q) && p.bits <= q.bits
            <= 0x7ff0_0000_0000_0000,
    ensures
        after.ready(),
{
}

/// A record is found by its hash: the first one whose hash is the one that is
/// looked for, in either case, and none where there is no such record.
pub proof fn first_hash_is_found(list: Seq<TorrentRecord>, hash: Seq<char>, i: int)
    requires
        0 <= i < list.len(),
        list[i].hash matches Some(h) && lower(h@) == lower(hash),
        forall|j: int|
            0 <= j < i ==> ((#[trigger] list[j]).hash matches Some(h) ==> lower(h@) != lower(hash)),
    ensures
        first_with_hash(list, hash, 0) == Some(list[i]),
{
    lemma_found_from(list, hash, 0, i);
}

proof fn lemma_found_from(list: Seq<TorrentRecord>, hash: Seq<char>, from: int, i: int)
    requires
        0 <= from <= i < list.len(),
        list[i].hash matches Some(h) && lower(h@) == lower(hash),
        forall|j: int|
            from <= j < i ==> ((#[trigger] list[j]).hash matches Some(h) ==> lower(h@) != lower(
                hash,
            )),
    ensures
        first_with_hash(list, hash, from) == Some(list[i]),
    decreases i - from,
{
    if from < i {
        assert(list[from].hash matches Some(h) ==> lower(h@) != lower(hash));
        lemma_found_from(list, hash, from + 1, i);
    }
}

/// Where no record has the hash, none is found.
pub proof fn absent_hash_is_not_found(list: Seq<TorrentRecord>, hash: Seq<char>)
    requires
        forall|j: int|
            0 <= j < list.len() ==> ((#[trigger] list[j]).hash matches Some(h) ==> lower(h@)
                != lower(hash)),
    ensures
        first_with_hash(list, hash, 0) is None,
{
    lemma_absent_from(list, hash, 0);
}

proof fn lemma_absent_from(list: Seq<TorrentRecord>, hash: Seq<char>, from: int)
    requires
        0 <= from <= list.len(),
        forall|j: int|
            0 <= j < list.len() ==> ((#[trigger] list[j]).hash matches Some(h) ==> lower(h@)
                != lower(hash)),
    ensures
        first_with_hash(list, hash, from) is None,
    decreases list.len() - from,
{
    if from < list.len() {
        assert(list[from].hash matches Some(h) ==> lower(h@) != lower(hash));
        lemma_absent_from(list, hash, from + 1);
    }
}

// ---------------------------------------------------------------------------
// Answers
// ---------------------------------------------------------------------------

/// The payload of a success comes out as it is; a success without one says so
/// in the API's words, or as an empty success body.
pub proof fn successes_give_their_payload<T>(env: Envelope<T>)
    requires
        env.success,
    ensures
        env.data matches Some(data) ==> envelope_outcome(env) == Ok::<T, TorboxErrorView>(data),
        env.data is None && env.detail is None ==> envelope_outcome(env) == Err::<
            T,
            TorboxErrorView,
        >(TorboxErrorView::NoCode { detail: "empty success body"@ }),
        env.data is None ==> (env.detail matches Some(d) ==> envelope_outcome(env) == Err::<
            T,
            TorboxErrorView,
        >(TorboxErrorView::NoCode { detail: d@ })),
{
}

/// A refusal keeps the code and the words of the API, whatever payload came
/// with it; a missing code is an unknown error, and missing words are no detail.
pub proof fn refusals_keep_code_and_words<T>(env: Envelope<T>)
    requires
        !env.success,
    ensures
        envelope_outcome(env) matches Err(TorboxErrorView::Api { code, detail }) && (match env.error {
            Some(e) => code == e@,
            None => code == "UNKNOWN_ERROR"@,
        }) && (match env.detail {
            Some(d) => detail == d@,
            None => detail == "no detail"@,
        }),
{
}

/// A decoded answer says what its envelope says; another is malformed, and
/// reported with the status, the body and the reason.
pub proof fn undecoded_answers_are_malformed<T>(
    status: Seq<char>,
    body: Seq<char>,
    env: Envelope<T>,
    reason: String,
)
    ensures
        parse_outcome(status, body, Ok(env)) == envelope_outcome(env),
        parse_outcome::<T>(status, body, Err(reason)) == Err::<T, TorboxErrorView>(
            TorboxErrorView::BadJson(
                "status="@ + status + " body="@ + body + " err="@ + reason@,
            ),
        ),
{
}

/// The cache check gives the entry under the hash, the first where there are
/// several.
pub proof fn cached_entry_under_the_hash<T>(
    env: Envelope<CachedData<T>>,
    hash: Seq<char>,
    r: Result<Option<T>, TorboxErrorView>,
    members: Vec<(String, T)>,
    i: int,
)
    requires
        cached_outcome(env, hash, r),
        env.success,
        env.data == Some(CachedData::Object(members)),
        0 <= i < members@.len(),
        members@[i].0@ == hash,
        forall|j: int| 0 <= j < i ==> (#[trigger] members@[j]).0@ != hash,
    ensures
        r == Ok::<Option<T>, TorboxErrorView>(Some(members@[i].1)),
{
    let k = choose|k: int|
        #[trigger] answers_for(members@, hash, k) && r == Ok::<Option<T>, TorboxErrorView>(
            Some(members@[k].1),
        );
    if k != i {
        assert(members@[k].0@ == hash || members@[i].0@ != hash);
        if k < i {
            assert(members@[k].0@ != hash);
        }
    }
}

/// Where no entry is under the hash, the cache check gives the first entry.
pub proof fn cached_entry_without_the_hash<T>(
    env: Envelope<CachedData<T>>,
    hash: Seq<char>,
    r: Result<Option<T>, TorboxErrorView>,
    members: Vec<(String, T)>,
)
    requires
        cached_outcome(env, hash, r),
        env.success,
        env.data == Some(CachedData::Object(members)),
        members@.len() > 0,
        forall|j: int| 0 <= j < members@.len() ==> (#[trigger] members@[j]).0@ != hash,
    ensures
        r == Ok::<Option<T>, TorboxErrorView>(Some(members@[0].1)),
{
}

/// The cache check finds nothing in an empty object, a list, another value or
/// no payload, and a refusal is told with its code, and with no words where
/// the API has none.
pub proof fn cached_nothing<T>(
    env: Envelope<CachedData<T>>,
    hash: Seq<char>,
    r: Result<Option<T>, TorboxErrorView>,
)
    requires
        cached_outcome(env, hash, r),
    ensures
        env.success && (env.data is None || (env.data matches Some(d) && !(d is Object))) ==> r
            == Ok::<Option<T>, TorboxErrorView>(None),
        env.success ==> (env.data matches Some(CachedData::Object(m)) ==> m@.len() == 0 ==> r
            == Ok::<Option<T>, TorboxErrorView>(None)),
        !env.success ==> (r matches Err(TorboxErrorView::Api { code, detail }) && (match env.error {
            Some(e) => code == e@,
            None => code == "UNKNOWN_ERROR"@,
        }) && (match env.detail {
            Some(d) => detail == d@,
            None => detail == Seq::<char>::empty(),
        })),
{
}

/// What a human reads of an error.
pub proof fn messages_say_what_failed(m: Seq<char>, code: Seq<char>)
    ensures
        torbox_message(TorboxErrorView::Http(m)) == "Torbox HTTP error: "@ + m,
        torbox_message(TorboxErrorView::BadJson(m)) == "Torbox returned malformed JSON: "@ + m,
        torbox_message(TorboxErrorView::Api { code, detail: m }) == "Torbox API error: "@ + code
            + " — "@ + m,
        torbox_message(TorboxErrorView::NoCode { detail: m }) == "Torbox API error: "@ + m,
{
}

// ---------------------------------------------------------------------------
// Requests
// ---------------------------------------------------------------------------

/// A GET request goes to the path under the base of the API, carries the key of
/// the account and the query, and has no form.
pub proof fn requests_carry_the_key(
    client: TorboxClient,
    path: Seq<char>,
    query: Seq<(Seq<char>, Seq<char>)>,
)
    ensures
        client.get_request(path, query).url == client.spec_base() + path,
        client.get_request(path, query).bearer == client.spec_token(),
        client.get_request(path, query).query == query,
        client.get_request(path, query).form is None,
        crate::constants::TORBOX_API_BASE@ == "https://api.torbox.app"@,
{
}

/// A chosen track is told by its number, under its own name; one that is not
/// chosen is not told.
pub proof fn choices_are_told(query: Seq<(Seq<char>, Seq<char>)>, a: u32, s: u32, r: u32)
    ensures
        with_choices(query, None, None, None) == query,
        with_choices(query, Some(a), None, None) == query.push(
            ("chosen_audio_index"@, decimal(a as nat)),
        ),
        with_choices(query, None, Some(s), None) == query.push(
            ("chosen_subtitle_index"@, decimal(s as nat)),
        ),
        with_choices(query, None, None, Some(r)) == query.push(
            ("chosen_resolution_index"@, decimal(r as nat)),
        ),
        with_choices(query, Some(a), Some(s), None) == query.push(
            ("chosen_audio_index"@, decimal(a as nat)),
        ).push(("chosen_subtitle_index"@, decimal(s as nat))),
        with_choices(query, Some(a), None, Some(r)) == query.push(
            ("chosen_audio_index"@, decimal(a as nat)),
        ).push(("chosen_resolution_index"@, decimal(r as nat))),
        with_choices(query, None, Some(s), Some(r)) == query.push(
            ("chosen_subtitle_index"@, decimal(s as nat)),
        ).push(("chosen_resolution_index"@, decimal(r as nat))),
        with_choices(query, Some(a), Some(s), Some(r)) == query.push(
            ("chosen_audio_index"@, decimal(a as nat)),
        ).push(("chosen_subtitle_index"@, decimal(s as nat))).push(
            ("chosen_resolution_index"@, decimal(r as nat)),
        ),
{
}

/// The names of the kinds of streams.
pub proof fn kinds_have_names(kind: StreamKind)
    ensures
        kind is Torrent ==> kind.name() == "torrent"@,
        kind is Usenet ==> kind.name() == "usenet"@,
        kind is Webdownload ==> kind.name() == "webdownload"@,
{
}

} // verus!
