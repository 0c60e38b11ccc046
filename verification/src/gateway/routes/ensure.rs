//! Getting a torrent ready on Torbox.
//!
//! A run starts with [`ensure_mapping`]. Unless the mapping is known already,
//! the caller performs the action that it is handed, reports what came of it,
//! and is handed the next one, until the mapping is there or the request is
//! refused.
use vstd::prelude::*;
use vstd::string::*;

use crate::gateway::routes::helpers::{
    build_magnet, err_response, error_response, minimal_magnet, normalize_info_hash,
    torbox_response, torbox_to_response,
};
use crate::gateway::state::{known, learnt, AppState, Mappings, TorrentMapping};
use crate::info_hash::{normal_form_is_stable, normalized_hash};
use crate::response::{Response, ResponseView, BAD_GATEWAY, GATEWAY_TIMEOUT, NOT_FOUND};
use crate::text::copy_opt;
use crate::torbox::{
    file_size, first_with_hash, has_video, is_pick, pick_index, pick_is_unique, CreatedTorrent,
    TorboxClient, TorboxError, TorrentFile, TorrentRecord,
};

verus! {

/// How long a fresh torrent may take to get ready, in milliseconds.
pub const TORRENT_READY_TIMEOUT: u64 = 120_000;

/// How long to sleep before asking again, in milliseconds.
pub const TORRENT_POLL_INTERVAL: u64 = 1_500;

/// What a run waits for.
#[derive(Debug, Clone, Copy, PartialEq, Eq)]
pub enum Phase {
    /// The torrents of the account.
    Finding,
    /// The torrent that is being added.
    Creating,
    /// The record of the torrent. The deadline is set once a record has been
    /// seen.
    Fetching { deadline: Option<u64> },
    /// Nothing: the run is over.
    Done,
}

/// A run that gets a torrent ready.
#[derive(Debug)]
pub struct Ensure {
    /// The info-hash, in normal form.
    pub hash: String,
    /// The magnet link to add the torrent with, where the client gave one.
    pub magnet_hint: Option<String>,
    /// The file that the client asks for.
    pub desired_file_idx: Option<i64>,
    pub phase: Phase,
}

/// What happened.
#[derive(Debug)]
pub enum Event {
    /// The torrents of the account came.
    Listed(Result<Vec<TorrentRecord>, TorboxError>),
    /// The torrent was added.
    Created(Result<CreatedTorrent, TorboxError>),
    /// The record of the torrent came.
    Fetched(Result<TorrentRecord, TorboxError>),
}

/// What to do next.
#[derive(Debug)]
pub enum Action {
    /// Ask for the torrents of the account.
    List,
    /// Add the torrent of this magnet link.
    Create(String),
    /// Ask for the record of this torrent.
    Fetch(i64),
    /// Sleep for [`TORRENT_POLL_INTERVAL`], then ask for the record of this
    /// torrent.
    SleepAndFetch(i64),
    /// Remember this mapping under the hash; it is the outcome.
    Store(TorrentMapping),
    /// Answer with this; there is no mapping.
    Refuse(Response),
}

/// What an [`Action`] stands for.
pub enum ActionView {
    List,
    Create(Seq<char>),
    Fetch(i64),
    SleepAndFetch(i64),
    Store(TorrentMapping),
    Refuse(ResponseView),
}

impl View for Action {
    type V = ActionView;

    open spec fn view(&self) -> ActionView {
        match self {
            Action::List => ActionView::List,
            Action::Create(magnet) => ActionView::Create(magnet@),
            Action::Fetch(id) => ActionView::Fetch(*id),
            Action::SleepAndFetch(id) => ActionView::SleepAndFetch(*id),
            Action::Store(mapping) => ActionView::Store(*mapping),
            Action::Refuse(reply) => ActionView::Refuse(reply@),
        }
    }
}

/// How a run starts.
pub enum Start<'a> {
    /// The mapping is known already.
    Known(&'a TorrentMapping),
    /// The mapping is to be made, and this is the first step.
    Run(Ensure, Action),
}

/// Whether a known mapping serves a request: it is for the file that is asked
/// for, or no file is asked for.
pub open spec fn serves(mapping: TorrentMapping, desired: Option<i64>) -> bool {
    desired is None || desired == Some(mapping.file_id)
}

/// The mapping that serves a request without asking Torbox.
pub open spec fn reusable(map: Mappings, info_hash: Seq<char>, desired: Option<i64>) -> Option<
    TorrentMapping,
> {
    match known(map, normalized_hash(info_hash)) {
        Some(mapping) => if serves(mapping, desired) {
            Some(mapping)
        } else {
            None
        },
        None => None,
    }
}

/// Starts to get a torrent ready. A known mapping that serves the request is
/// the outcome; otherwise the torrents of the account are looked through.
pub fn ensure_mapping<'a>(
    state: &'a AppState,
    info_hash: &str,
    magnet_hint: Option<String>,
    desired_file_idx: Option<i64>,
) -> (r: Start<'a>)
    ensures
        match reusable(state.mappings@, info_hash@, desired_file_idx) {
            Some(mapping) => r matches Start::Known(m) && *m == mapping,
            None => r matches Start::Run(run, action) && run.hash@ == normalized_hash(info_hash@)
                && run.magnet_hint == magnet_hint && run.desired_file_idx == desired_file_idx
                && run.phase == Phase::Finding && action@ == ActionView::List,
        },
{
    let hash = normalize_info_hash(info_hash);
    match state.get_mapping(&hash) {
        Some(existing) => {
            let fits: bool = match desired_file_idx {
                Some(idx) => idx == existing.file_id,
                None => true,
            };
            if fits {
                return Start::Known(existing);
            }
        },
        None => {},
    }
    Start::Run(Ensure { hash, magnet_hint, desired_file_idx, phase: Phase::Finding }, Action::List)
}

/// Whether an event is the one that a phase waits for.
pub open spec fn awaited(phase: Phase, event: Event) -> bool {
    match phase {
        Phase::Finding => event is Listed,
        Phase::Creating => event is Created,
        Phase::Fetching { .. } => event is Fetched,
        Phase::Done => false,
    }
}

/// The position of the first file with a number, from `from` on.
pub open spec fn file_with_id(files: Seq<TorrentFile>, id: i64, from: int) -> Option<int>
    decreases files.len() - from,
{
    if from < 0 || from >= files.len() {
        None
    } else if files[from].id == id {
        Some(from)
    } else {
        file_with_id(files, id, from + 1)
    }
}

/// The position of the file to serve: the one that is asked for where the
/// torrent has it, else the one to play by default.
pub open spec fn served_file(files: Seq<TorrentFile>, desired: Option<i64>) -> int {
    match desired {
        Some(id) => match file_with_id(files, id, 0) {
            Some(i) => i,
            None => pick_index(files),
        },
        None => pick_index(files),
    }
}

/// The mapping that a ready record gives.
pub open spec fn mapping_of(
    record: TorrentRecord,
    desired: Option<i64>,
    now: u64,
) -> TorrentMapping {
    let file = record.files@[served_file(record.files@, desired)];
    TorrentMapping {
        torrent_id: record.id,
        file_id: file.id,
        file_name: file.name,
        size: file.size,
        last_used_at: now,
        last_stream: None,
    }
}

/// The time until which a record that is seen now may get ready.
pub open spec fn deadline_from(now: u64) -> u64 {
    if now + TORRENT_READY_TIMEOUT > u64::MAX {
        u64::MAX
    } else {
        (now + TORRENT_READY_TIMEOUT) as u64
    }
}

/// The step when a record has come. A record is usable once the torrent is
/// downloaded and has files.
pub open spec fn record_step(
    hash: Seq<char>,
    desired: Option<i64>,
    record: TorrentRecord,
    deadline: u64,
    now: u64,
) -> (Phase, ActionView) {
    if record.ready() && record.files@.len() > 0 {
        (Phase::Done, ActionView::Store(mapping_of(record, desired, now)))
    } else if now >= deadline {
        (
            Phase::Done,
            ActionView::Refuse(
                error_response(
                    GATEWAY_TIMEOUT,
                    "Torbox did not finish caching torrent "@ + hash + " within 120s"@,
                ),
            ),
        )
    } else {
        (Phase::Fetching { deadline: Some(deadline) }, ActionView::SleepAndFetch(record.id))
    }
}

/// The step that a run takes on an event.
pub open spec fn ensure_step(
    hash: Seq<char>,
    magnet_hint: Option<String>,
    desired: Option<i64>,
    phase: Phase,
    event: Event,
    now: u64,
) -> (Phase, ActionView) {
    match event {
        Event::Listed(Ok(list)) => match first_with_hash(list@, hash, 0) {
            Some(record) => record_step(hash, desired, record, deadline_from(now), now),
            None => (
                Phase::Creating,
                ActionView::Create(
                    match magnet_hint {
                        Some(magnet) => magnet@,
                        None => minimal_magnet(hash),
                    },
                ),
            ),
        },
        Event::Created(Ok(created)) => match created.id {
            Some(id) => (Phase::Fetching { deadline: None }, ActionView::Fetch(id)),
            None => (
                Phase::Done,
                ActionView::Refuse(
                    error_response(BAD_GATEWAY, "Torbox createtorrent returned no id"@),
                ),
            ),
        },
        Event::Fetched(Ok(record)) => record_step(
            hash,
            desired,
            record,
            match phase {
                Phase::Fetching { deadline: Some(d) } => d,
                _ => deadline_from(now),
            },
            now,
        ),
        Event::Listed(Err(e)) => (Phase::Done, ActionView::Refuse(torbox_response(e@))),
        Event::Created(Err(e)) => (Phase::Done, ActionView::Refuse(torbox_response(e@))),
        Event::Fetched(Err(e)) => (Phase::Done, ActionView::Refuse(torbox_response(e@))),
    }
}

impl Ensure {
    /// The step that the run takes on an event.
    pub open spec fn stepped(self, event: Event, now: u64) -> (Phase, ActionView) {
        ensure_step(
            self.hash@,
            self.magnet_hint,
            self.desired_file_idx,
            self.phase,
            event,
            now,
        )
    }

    /// Takes an event, at a time of the gateway's clock in milliseconds, and
    /// says what to do next. The event is meant to be the one that the run
    /// waits for.
    pub fn step(self, event: Event, now: u64) -> (r: (Ensure, Action))
        ensures
            r.0.hash == self.hash,
            r.0.magnet_hint == self.magnet_hint,
            r.0.desired_file_idx == self.desired_file_idx,
            (r.0.phase, r.1@) == self.stepped(event, now),
    {
        match event {
            Event::Listed(Ok(list)) => {
                match TorboxClient::find_torrent_by_hash_reply(list, &self.hash) {
                    Some(record) => {
                        let deadline: u64 = now.saturating_add(TORRENT_READY_TIMEOUT);
                        self.on_record(record, deadline, now)
                    },
                    None => {
                        let magnet = match copy_opt(&self.magnet_hint) {
                            Some(magnet) => magnet,
                            None => build_magnet(&self.hash),
                        };
                        (self.in_phase(Phase::Creating), Action::Create(magnet))
                    },
                }
            },
            Event::Created(Ok(created)) => {
                match created.id {
                    Some(id) => (
                        self.in_phase(Phase::Fetching { deadline: None }),
                        Action::Fetch(id),
                    ),
                    None => (
                        self.in_phase(Phase::Done),
                        Action::Refuse(
                            err_response(BAD_GATEWAY, "Torbox createtorrent returned no id"),
                        ),
                    ),
                }
            },
            Event::Fetched(Ok(record)) => {
                let deadline: u64 = match self.phase {
                    Phase::Fetching { deadline: Some(d) } => d,
                    _ => now.saturating_add(TORRENT_READY_TIMEOUT),
                };
                self.on_record(record, deadline, now)
            },
            Event::Listed(Err(e)) => (
                self.in_phase(Phase::Done),
                Action::Refuse(torbox_to_response(e)),
            ),
            Event::Created(Err(e)) => (
                self.in_phase(Phase::Done),
                Action::Refuse(torbox_to_response(e)),
            ),
            Event::Fetched(Err(e)) => (
                self.in_phase(Phase::Done),
                Action::Refuse(torbox_to_response(e)),
            ),
        }
    }

    fn in_phase(self, phase: Phase) -> (r: Ensure)
        ensures
            r == (Ensure { phase, ..self }),
    {
        Ensure {
            hash: self.hash,
            magnet_hint: self.magnet_hint,
            desired_file_idx: self.desired_file_idx,
            phase,
        }
    }

    fn on_record(self, record: TorrentRecord, deadline: u64, now: u64) -> (r: (Ensure, Action))
        ensures
            r.0.hash == self.hash,
            r.0.magnet_hint == self.magnet_hint,
            r.0.desired_file_idx == self.desired_file_idx,
            (r.0.phase, r.1@) == record_step(
                self.hash@,
                self.desired_file_idx,
                record,
                deadline,
                now,
            ),
    {
        if !record.is_ready() || record.files.len() == 0 {
            if now >= deadline {
                let mut message = "Torbox did not finish caching torrent ".to_owned();
                message.append(&self.hash);
                message.append(" within 120s");
                return (
                    self.in_phase(Phase::Done),
                    Action::Refuse(err_response(GATEWAY_TIMEOUT, &message)),
                );
            }
            return (
                self.in_phase(Phase::Fetching { deadline: Some(deadline) }),
                Action::SleepAndFetch(record.id),
            );
        }
        match select_file(&record, self.desired_file_idx) {
            Some(file) => {
                let mapping = TorrentMapping {
                    torrent_id: record.id,
                    file_id: file.id,
                    file_name: copy_opt(&file.name),
                    size: file.size,
                    last_used_at: now,
                    last_stream: None,
                };
                (self.in_phase(Phase::Done), Action::Store(mapping))
            },
            None => (
                self.in_phase(Phase::Done),
                Action::Refuse(
                    err_response(NOT_FOUND, "Torbox returned no files for this torrent"),
                ),
            ),
        }
    }
}

/// Picks the file to serve; nothing where the torrent has no files.
pub fn select_file(record: &TorrentRecord, desired: Option<i64>) -> (r: Option<&TorrentFile>)
    ensures
        r is None <==> record.files@.len() == 0,
        r matches Some(f) ==> *f == record.files@[served_file(record.files@, desired)],
{
    match desired {
        Some(id) => {
            let n: usize = record.files.len();
            let mut i: usize = 0;
            while i < n
                invariant
                    i <= n,
                    n == record.files@.len(),
                    desired == Some(id),
                    file_with_id(record.files@, id, 0) == file_with_id(
                        record.files@,
                        id,
                        i as int,
                    ),
                decreases n - i,
            {
                if record.files[i].id == id {
                    return Some(&record.files[i]);
                }
                i = i + 1;
            }
        },
        None => {},
    }
    let picked = record.pick_video_file();
    proof {
        if let Some(f) = picked {
            let i = choose|i: int| #[trigger] is_pick(record.files@, i) && *f == record.files@[i];
            pick_is_unique(record.files@, i, pick_index(record.files@));
        }
    }
    picked
}

// ---------------------------------------------------------------------------
// Laws
// ---------------------------------------------------------------------------

/// How often a run adds a torrent, over a row of events; it ends at an event
/// that it does not wait for.
pub open spec fn creations(
    hash: Seq<char>,
    magnet_hint: Option<String>,
    desired: Option<i64>,
    phase: Phase,
    events: Seq<(Event, u64)>,
) -> nat
    decreases events.len(),
{
    if events.len() == 0 || !awaited(phase, events[0].0) {
        0
    } else {
        let (next, action) = ensure_step(
            hash,
            magnet_hint,
            desired,
            phase,
            events[0].0,
            events[0].1,
        );
        let now: nat = if action is Create {
            1
        } else {
            0
        };
        now + creations(hash, magnet_hint, desired, next, events.drop_first())
    }
}

proof fn lemma_no_creation_later(
    hash: Seq<char>,
    magnet_hint: Option<String>,
    desired: Option<i64>,
    phase: Phase,
    events: Seq<(Event, u64)>,
)
    requires
        phase != Phase::Finding,
    ensures
        creations(hash, magnet_hint, desired, phase, events) == 0,
    decreases events.len(),
{
    if events.len() > 0 && awaited(phase, events[0].0) {
        let (next, _) = ensure_step(
            hash,
            magnet_hint,
            desired,
            phase,
            events[0].0,
            events[0].1,
        );
        lemma_no_creation_later(hash, magnet_hint, desired, next, events.drop_first());
    }
}

/// Whatever happens, a run adds a torrent once at most.
pub proof fn at_most_one_creation(
    hash: Seq<char>,
    magnet_hint: Option<String>,
    desired: Option<i64>,
    phase: Phase,
    events: Seq<(Event, u64)>,
)
    ensures
        creations(hash, magnet_hint, desired, phase, events) <= 1,
{
    if events.len() > 0 && awaited(phase, events[0].0) {
        let (next, _) = ensure_step(
            hash,
            magnet_hint,
            desired,
            phase,
            events[0].0,
            events[0].1,
        );
        if phase == Phase::Finding {
            lemma_no_creation_later(hash, magnet_hint, desired, next, events.drop_first());
        } else {
            lemma_no_creation_later(hash, magnet_hint, desired, phase, events);
        }
    }
}

/// A torrent is added only where the account was looked through and does not
/// have it.
pub proof fn creation_needs_absence(run: Ensure, event: Event, now: u64)
    requires
        awaited(run.phase, event),
        run.stepped(event, now).1 is Create,
    ensures
        event matches Event::Listed(Ok(list)) && first_with_hash(list@, run.hash@, 0) is None,
{
}

/// Whether an action brings the event that a phase waits for, or ends the run
/// where the phase waits for nothing.
pub open spec fn action_fits(phase: Phase, action: ActionView) -> bool {
    match action {
        ActionView::List => phase == Phase::Finding,
        ActionView::Create(_) => phase == Phase::Creating,
        ActionView::Fetch(_) | ActionView::SleepAndFetch(_) => phase is Fetching,
        ActionView::Store(_) | ActionView::Refuse(_) => phase == Phase::Done,
    }
}

/// The action that a step calls for brings the event that the run then waits
/// for; a run that waits for nothing has its outcome.
pub proof fn actions_fit_their_phase(run: Ensure, event: Event, now: u64)
    requires
        awaited(run.phase, event),
    ensures
        action_fits(run.stepped(event, now).0, run.stepped(event, now).1),
{
}

/// Once a deadline is set it stays, and a record that comes at the deadline or
/// later ends the run.
pub proof fn deadline_ends_the_run(run: Ensure, event: Event, now: u64, deadline: u64)
    requires
        run.phase == (Phase::Fetching { deadline: Some(deadline) }),
        awaited(run.phase, event),
    ensures
        now >= deadline ==> run.stepped(event, now).0 == Phase::Done,
        run.stepped(event, now).0 == Phase::Done || run.stepped(event, now).0 == run.phase,
{
}

/// The file that a mapping names is one of the torrent's, and the one that was
/// asked for where the torrent has it.
pub proof fn served_file_is_there(files: Seq<TorrentFile>, desired: Option<i64>)
    requires
        files.len() > 0,
    ensures
        0 <= served_file(files, desired) < files.len(),
        desired matches Some(id) ==> (exists|j: int|
            0 <= j < files.len() && (#[trigger] files[j]).id == id) ==> files[served_file(
            files,
            desired,
        )].id == id,
{
    lemma_pick_exists(files);
    if let Some(id) = desired {
        lemma_file_with_id(files, id, 0);
    }
}

pub proof fn lemma_file_with_id(files: Seq<TorrentFile>, id: i64, from: int)
    requires
        0 <= from,
    ensures
        file_with_id(files, id, from) matches Some(i) ==> from <= i < files.len() && files[i].id
            == id,
        file_with_id(files, id, from) is None ==> forall|j: int|
            from <= j < files.len() ==> (#[trigger] files[j]).id != id,
    decreases files.len() - from,
{
    if from < files.len() && files[from].id != id {
        lemma_file_with_id(files, id, from + 1);
    }
}

/// Some file of a torrent that has files is the one to play.
pub proof fn lemma_pick_exists(files: Seq<TorrentFile>)
    requires
        files.len() > 0,
    ensures
        is_pick(files, pick_index(files)),
{
    let video = has_video(files);
    let start = if video {
        choose|j: int| 0 <= j < files.len() && (#[trigger] files[j]).video_like()
    } else {
        0
    };
    lemma_best_below(files, video, start, files.len() as int);
    assert(is_pick(files, best_below(files, video, start, files.len() as int)));
}

/// The position of the largest admitted file before `upto`, or `start`.
spec fn best_below(files: Seq<TorrentFile>, video: bool, start: int, upto: int) -> int
    decreases upto,
{
    if upto <= 0 {
        start
    } else {
        let b = best_below(files, video, start, upto - 1);
        let f = files[upto - 1];
        if (video ==> f.video_like()) && (file_size(f) > file_size(files[b]) || (file_size(f)
            == file_size(files[b]) && upto - 1 > b)) {
            upto - 1
        } else {
            b
        }
    }
}

proof fn lemma_best_below(files: Seq<TorrentFile>, video: bool, start: int, upto: int)
    requires
        0 <= start < files.len(),
        video ==> files[start].video_like(),
        0 <= upto <= files.len(),
    ensures
        0 <= best_below(files, video, start, upto) < files.len(),
        video ==> files[best_below(files, video, start, upto)].video_like(),
        forall|j: int|
            0 <= j < upto && (video ==> (#[trigger] files[j]).video_like())
                ==> file_size(files[j]) < file_size(files[best_below(files, video, start, upto)])
                || (file_size(files[j]) == file_size(files[best_below(files, video, start, upto)])
                && j <= best_below(files, video, start, upto)),
    decreases upto,
{
    if upto > 0 {
        lemma_best_below(files, video, start, upto - 1);
    }
}

/// A mapping that was stored serves the next request for its file, and any
/// request that asks for no file, without asking Torbox.
pub proof fn stored_mapping_is_reused(
    map: Mappings,
    info_hash: Seq<char>,
    mapping: TorrentMapping,
    desired: Option<i64>,
)
    requires
        serves(mapping, desired),
    ensures
        reusable(learnt(map, normalized_hash(info_hash), mapping), info_hash, desired) == Some(
            mapping,
        ),
        reusable(
            learnt(map, normalized_hash(info_hash), mapping),
            normalized_hash(info_hash),
            desired,
        ) == Some(mapping),
{
    normal_form_is_stable(info_hash);
}

} // verus!
