use vstd::prelude::*;

verus! {

/// The vocabulary of a future replication channel between stores. Only the
/// shapes of the messages are fixed; no transport or ordering is defined.
#[derive(Debug, Clone, PartialEq, Eq)]
pub enum SyncMessage {
    /// A record was inserted or overwritten.
    Insert { id: String, embedding: Vec<u8>, metadata: String },
    /// A record was deleted.
    Delete { id: String },
    /// The peer is alive at the given time.
    Heartbeat { timestamp: u64 },
}

} // verus!
