//! What the gateway remembers between requests.
//!
//! A small map from info-hashes to Torbox identifiers saves the rate-limited
//! creation of a torrent on every play.
use vstd::prelude::*;

use crate::config::GatewayConfig;
use crate::table::Table;
use crate::text::{lower, to_lower};
use crate::torbox::{StreamData, TorboxClient};

verus! {

/// What is known of an info-hash once Torbox has answered for it.
#[derive(Debug, Clone)]
pub struct TorrentMapping {
    pub torrent_id: i64,
    pub file_id: i64,
    pub file_name: Option<String>,
    pub size: Option<i64>,
    /// When the mapping was last used, in milliseconds of the gateway's clock.
    pub last_used_at: u64,
    /// The last description of the stream.
    pub last_stream: Option<StreamData>,
}

/// What every route works on.
pub struct AppState {
    pub torbox: TorboxClient,
    pub cfg: GatewayConfig,
    /// What is known of each info-hash, by the hash in lower case.
    pub mappings: Table<TorrentMapping>,
}

/// What is known of each info-hash.
pub type Mappings = Map<Seq<char>, TorrentMapping>;

/// What is known of an info-hash, in either case.
pub open spec fn known(map: Mappings, info_hash: Seq<char>) -> Option<TorrentMapping> {
    if map.contains_key(lower(info_hash)) {
        Some(map[lower(info_hash)])
    } else {
        None
    }
}

/// The knowledge after a mapping was learnt.
pub open spec fn learnt(map: Mappings, info_hash: Seq<char>, mapping: TorrentMapping) -> Mappings {
    map.insert(lower(info_hash), mapping)
}

/// The knowledge after a mapping was forgotten.
pub open spec fn forgotten(map: Mappings, info_hash: Seq<char>) -> Mappings {
    map.remove(lower(info_hash))
}

/// The knowledge after a stream was described; nothing changes for an unknown
/// hash.
pub open spec fn described(
    map: Mappings,
    info_hash: Seq<char>,
    stream: StreamData,
    now: u64,
) -> Mappings {
    if map.contains_key(lower(info_hash)) {
        map.insert(
            lower(info_hash),
            TorrentMapping {
                last_stream: Some(stream),
                last_used_at: now,
                ..map[lower(info_hash)]
            },
        )
    } else {
        map
    }
}

impl AppState {
    /// A state that knows nothing yet.
    pub fn new(torbox: TorboxClient, cfg: GatewayConfig) -> (r: Self)
        ensures
            r.torbox == torbox,
            r.cfg == cfg,
            r.mappings@ == Mappings::empty(),
    {
        AppState { torbox, cfg, mappings: Table::new() }
    }

    /// What is known of an info-hash.
    pub fn get_mapping(&self, info_hash: &str) -> (r: Option<&TorrentMapping>)
        ensures
            r is Some <==> known(self.mappings@, info_hash@) is Some,
            r matches Some(m) ==> known(self.mappings@, info_hash@) == Some(*m),
    {
        self.mappings.get(&to_lower(info_hash))
    }

    /// Learns a mapping.
    pub fn put_mapping(&mut self, info_hash: &str, mapping: TorrentMapping)
        ensures
            final(self).mappings@ == learnt(old(self).mappings@, info_hash@, mapping),
            final(self).torbox == old(self).torbox,
            final(self).cfg == old(self).cfg,
    {
        self.mappings.insert(to_lower(info_hash), mapping);
    }

    /// Forgets a mapping.
    pub fn remove_mapping(&mut self, info_hash: &str)
        ensures
            final(self).mappings@ == forgotten(old(self).mappings@, info_hash@),
            final(self).torbox == old(self).torbox,
            final(self).cfg == old(self).cfg,
    {
        let _ = self.mappings.remove(&to_lower(info_hash));
    }

    /// Keeps the description of a stream with its mapping.
    pub fn update_stream(&mut self, info_hash: &str, stream: StreamData, now: u64)
        ensures
            final(self).mappings@ == described(old(self).mappings@, info_hash@, stream, now),
            final(self).torbox == old(self).torbox,
            final(self).cfg == old(self).cfg,
    {
        let key = to_lower(info_hash);
        let ghost before = self.mappings@;
        match self.mappings.remove(&key) {
            Some(entry) => {
                let ghost k = key@;
                let updated = TorrentMapping {
                    torrent_id: entry.torrent_id,
                    file_id: entry.file_id,
                    file_name: entry.file_name,
                    size: entry.size,
                    last_used_at: now,
                    last_stream: Some(stream),
                };
                self.mappings.insert(key, updated);
                proof {
                    assert(before.remove(k).insert(k, updated) =~= before.insert(k, updated));
                }
            },
            None => {
                proof {
                    assert(before.remove(key@) =~= before);
                }
            },
        }
    }
}

// ---------------------------------------------------------------------------
// Laws
// ---------------------------------------------------------------------------

/// Whether every key is in lower case.
pub open spec fn keys_are_lower(map: Mappings) -> bool {
    forall|key: Seq<char>| #[trigger] map.contains_key(key) ==> lower(key) == key
}

/// Keys stay in lower case, whatever is learnt, forgotten or described.
pub proof fn keys_stay_lower(
    map: Mappings,
    info_hash: Seq<char>,
    mapping: TorrentMapping,
    stream: StreamData,
    now: u64,
)
    ensures
        keys_are_lower(Mappings::empty()),
        keys_are_lower(map) ==> keys_are_lower(learnt(map, info_hash, mapping)),
        keys_are_lower(map) ==> keys_are_lower(forgotten(map, info_hash)),
        keys_are_lower(map) ==> keys_are_lower(described(map, info_hash, stream, now)),
{
    assert(lower(lower(info_hash)) =~= lower(info_hash));
}

/// What was learnt of a hash is what is known of it, however the letters of
/// either are cased.
pub proof fn learnt_is_known(
    map: Mappings,
    info_hash: Seq<char>,
    mapping: TorrentMapping,
    asked: Seq<char>,
)
    ensures
        known(learnt(map, info_hash, mapping), asked) == (if lower(asked) == lower(info_hash) {
            Some(mapping)
        } else {
            known(map, asked)
        }),
{
}

/// A forgotten hash is unknown, and nothing else is forgotten with it.
pub proof fn forgotten_is_unknown(map: Mappings, info_hash: Seq<char>, asked: Seq<char>)
    ensures
        known(forgotten(map, info_hash), asked) == (if lower(asked) == lower(info_hash) {
            None
        } else {
            known(map, asked)
        }),
{
}

/// A described stream is kept with its mapping, which stays as it was
/// otherwise; every other mapping stays, and none appears.
pub proof fn described_keeps_mappings(
    map: Mappings,
    info_hash: Seq<char>,
    stream: StreamData,
    now: u64,
    asked: Seq<char>,
)
    ensures
        known(described(map, info_hash, stream, now), asked) == (match known(map, asked) {
            Some(m) => if lower(asked) == lower(info_hash) {
                Some(TorrentMapping { last_stream: Some(stream), last_used_at: now, ..m })
            } else {
                Some(m)
            },
            None => None,
        }),
{
}

} // verus!
