//! The logic of a Stremio streaming server that is backed by a Torbox account.
//!
//! Requests and replies are plain values here: sending them is left to the
//! program around the library. What the library asks of other crates stands in
//! [`bindings`].
use vstd::prelude::*;

pub mod args;
pub mod base32;
pub mod bindings;
pub mod config;
pub mod constants;
pub mod gateway;
pub mod info_hash;
pub mod json;
pub mod laws;
pub mod response;
pub mod table;
pub mod text;
pub mod torbox;

verus! {

} // verus!
