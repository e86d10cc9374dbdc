use vstd::prelude::*;

pub mod proto;
pub mod wire;
pub mod strings;
pub mod text;
pub mod media;
pub mod tags;
pub mod names;
pub mod paths;
pub mod musicbrainz;
pub mod order;
pub mod store;
pub mod json;
pub mod playback;
pub mod cast;
pub mod bridges;
pub mod table;
pub mod local_sessions;
pub mod discovery;
pub mod models;
pub mod queue;
pub mod assets;
pub mod albums;
pub mod library;
pub mod edits;
pub mod range;
pub mod transport;
pub mod rootpaths;
pub mod playqueue;
pub mod control;
pub mod browser;
pub mod config;
pub mod events;
pub mod coverart;
pub mod sse;
pub mod requests;
pub mod scanning;
pub mod sessions;
pub mod localplayer;

verus! {
} // verus!
