//! Core of a self-hosted video annotation service: the media ingestion
//! pipeline and the catalog it maintains.
//!
//! The crate models the catalog (media files, comments, user messages) as a
//! verified in-memory store with transactional snapshots, and verifies the
//! decision logic of the pipeline stages: identity hashing, transcode
//! decisions, ingest dispatch, spool monitoring, rejected-file cleanup,
//! transcoder supervision and user notification fan-out.  External tools
//! (probe, encoder), the network layer and the on-disk SQL engine stay
//! outside; the library speaks to them through plain values and through a
//! small set of trusted wrappers over outside crates.

pub mod errors;
pub mod paging;
pub mod models;
pub mod order;
pub mod strutil;
pub mod catalog;
pub mod txn;
pub mod hashid;
pub mod transcode;
pub mod bus;
pub mod fsmodel;
pub mod cleaner;
pub mod ingest;
pub mod pipeline;
pub mod monitor;
pub mod pool;
pub mod proto;
pub mod session;
pub mod organizer;
pub mod metadata;
