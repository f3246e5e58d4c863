//! Synchronisation core of a cross-chain light client: framing of consensus
//! update streams, selection of the update that advances a known sync-committee
//! period, the request and response rules of the storage proof endpoint, and the
//! staged error taxonomy of the proving pipeline.

pub mod error;
pub mod period;
pub mod proofs;
pub mod request;
pub mod response;
pub mod update;
