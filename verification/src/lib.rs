//! Bridges a DJ application's in-memory playback state (tempo, beat
//! position, active deck, loaded track) to a lighting-control peer.
//!
//! The crate is organised around the polling pipeline: an offset table
//! ([`offsets`]) names where each tracked field lives in the target
//! process, a memory source ([`memory`]) resolves pointer chains and
//! reads typed values, a snapshot reader ([`rekordbox`]) turns one poll
//! into an immutable snapshot, and the reconciliation engine
//! ([`keeper`]) folds successive snapshots into beat / time / track /
//! tempo events with a continuously interpolated sub-beat phase.
//! Track metadata responses from the companion web API are decoded in
//! [`metadata`].

pub mod keeper;
pub mod memory;
pub mod metadata;
pub mod offsets;
pub mod rekordbox;
