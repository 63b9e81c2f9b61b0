//! Identity and persistence substrate for a node in a decentralized
//! GPU-inference marketplace: self-sovereign addresses derived from public
//! keys, detached message signatures, and a durable keyed store for node
//! capability profiles, live status snapshots, inference requests and
//! free-form metadata.

pub mod codec;
pub mod identity;
pub mod storage;
pub mod types;
