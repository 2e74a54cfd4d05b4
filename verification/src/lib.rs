//! Marshaling layer for a sector-proving system.
//!
//! This crate converts foreign fixed-layout replica descriptors into native
//! data structures suitable for batch proving calls: it validates the UTF-8
//! string fields of remote-storage descriptors, assembles per-sector replica
//! metadata into an ordered map keyed by sector id, copies opaque proof
//! payloads into owned collections, encodes and decodes byte-range lists,
//! and drives the state machine of a poll-until-complete protocol for
//! delegating proof computation to a remote worker.
//!
//! All I/O (the foreign call boundary itself, HTTP transport, sleeping
//! between polls) lives outside this crate; every function here is a pure
//! transformation with a verified contract.

pub mod dispatch;
pub mod error;
pub mod marshal;
pub mod proofs;
pub mod ranges;
pub mod replica;
pub mod sector_map;
pub mod text;
