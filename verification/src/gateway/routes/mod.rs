//! What the gateway answers, by concern.
//!
//! - [`helpers`]: errors, info-hashes and the parts that several routes share.
//! - [`ensure`]: getting a torrent ready on Torbox.
//! - [`meta`]: settings, status, probe and the like.
//! - [`stream`]: the life of a torrent, and direct play.
//! - [`hls`]: playlists and segments of transcoded streams.
//! - [`playlist`]: the rewriting of playlists.
//! - [`token`]: taking the key out of what a player is given.
use vstd::prelude::*;

pub mod ensure;
pub mod helpers;
pub mod hls;
pub mod meta;
pub mod playlist;
pub mod stream;
pub mod token;

verus! {

} // verus!
