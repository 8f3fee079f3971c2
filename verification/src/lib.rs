//! A verified music-library indexer core.
//!
//! The library keeps a relational model of a user's audio collections:
//! registered collection roots, artists, albums, tracks and settings.
//! Every operation — registering a collection, resolving an artist or
//! album by its natural key, reconciling a scanned file into a track row,
//! partial track updates, aggregation — is specified against a
//! mathematical view of the store and verified.
//!
//! Directory walking, tag probing and all other I/O live outside this
//! crate; callers hand the library plain values (paths, extracted tag
//! fields, timestamps) and receive plain values back.

pub mod albums;
pub mod artists;
pub mod clock;
pub mod collections;
pub mod covers;
pub mod debug;
pub mod laws;
pub mod lookups;
pub mod models;
pub mod ordering;
pub mod paths;
pub mod queries;
pub mod reconcile;
pub mod seqtools;
pub mod settings;
pub mod sorts;
pub mod store;
pub mod strutil;
pub mod tracks;
pub mod update;
