//! Ingestion core of a C2PA manifest service: a payload is fingerprinted,
//! its container is sniffed, the embedded manifest is extracted, and the
//! decisions that lead to a content-addressed, write-once store entry are
//! taken here. Reading requests and touching the disk is left to the caller.

pub mod concurrency;
pub mod config;
pub mod container;
pub mod extract;
pub mod fingerprint;
pub mod guarantees;
pub mod handler;
pub mod sniff;
pub mod store;
