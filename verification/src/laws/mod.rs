//! What holds of the library as a whole, said without the definitions that the
//! contracts use.
//!
//! - [`text`]: letters, white space, lines and numbers.
//! - [`torbox`]: files, records, answers and requests.
//! - [`settings`]: switches, the configuration, and who may call.
//! - [`routes`]: errors, sources, mappings and readiness.
//! - [`hls`]: playlists, segments and their warm-up.
//! - [`documents`]: the documents that routes answer with.
use vstd::prelude::*;

pub mod documents;
pub mod hls;
pub mod routes;
pub mod settings;
pub mod text;
pub mod torbox;

verus! {

} // verus!
