use vstd::prelude::*;

verus! {

/// The kinds of envelope messages exchanged with the transport collaborator.
/// This core does not implement transport; it only produces and consumes the
/// payloads these messages carry.
#[derive(Clone, Copy, Debug, PartialEq, Eq, Structural)]
pub enum PacketType {
    PlayerConnect,
    PlayerDisconnect,
    /// Get saved player data from file, if available.
    PlayerInfoRequest,
    /// Data about a player to save, sent at a fixed interval from the client.
    PlayerInfoData,
    /// Request from the client to send data about a chunk.
    ChunkRequest,
    /// Request from the client to update a chunk.
    ChunkUpdate,
    /// The contents of a chunk as requested by the client.
    ChunkContents,
}

/// The kinds of chunk updates a client can request.
#[derive(Clone, Copy, Debug, PartialEq, Eq, Structural)]
pub enum ChunkUpdateType {
    PlaceBlockEvent,
    DestroyBlockEvent,
}

} // verus!
