//! Requests to peers and what becomes of them.
use vstd::prelude::*;

use crate::primitives::{B256, PeerId, WithPeerId};

verus! {

/// What asking a pending operation for its result gave.
#[derive(Debug)]
pub enum Poll<T> {
    /// The result is there.
    Ready(T),
    /// There is no result yet.
    Pending,
}

/// Why a request to a peer failed.
#[derive(Clone, Copy, Debug, PartialEq, Eq, Structural)]
pub enum RequestError {
    /// The channel to the peer's session was closed.
    ChannelClosed,
    /// The connection to the peer was dropped while the request was in flight.
    ConnectionDropped,
    /// The peer does not support the kind of request.
    UnsupportedCapability,
    /// The peer did not respond in time.
    Timeout,
    /// The peer's response was invalid.
    BadResponse,
}

/// The response to a request with the peer that gave it, or the failure of the request.
pub type PeerRequestResult<T> = Result<WithPeerId<T>, RequestError>;

/// How urgent a request is.
#[derive(Clone, Copy, Debug, PartialEq, Eq, Structural)]
pub enum Priority {
    /// Queued with the other requests.
    Normal,
    /// Dispatched before the normal requests.
    High,
}

/// The block that a range of headers starts with.
#[derive(Clone, Copy, Debug, PartialEq, Eq)]
pub enum BlockHashOrNumber {
    /// The block with this hash.
    Hash(B256),
    /// The block with this number.
    Number(u64),
}

/// The direction in which a range of headers is asked for.
#[derive(Clone, Copy, Debug, PartialEq, Eq, Structural)]
pub enum HeadersDirection {
    /// Towards lower block numbers.
    Falling,
    /// Towards higher block numbers.
    Rising,
}

/// A request for a range of headers.
#[derive(Clone, Copy, Debug, PartialEq, Eq)]
pub struct HeadersRequest {
    /// The block that the range starts with.
    pub start: BlockHashOrNumber,
    /// The greatest number of headers in the response.
    pub limit: u64,
    /// The direction of the range.
    pub direction: HeadersDirection,
}

/// What the download of a single block asks of the network client.
#[derive(Clone, Copy, Debug, PartialEq, Eq)]
pub enum ClientAction {
    /// Report that the peer sent a bad message.
    ReportBadMessage(PeerId),
    /// Request the header of the block with this hash.
    GetHeader(B256),
    /// Request the body of the block with this hash.
    GetBlockBody(B256),
}

} // verus!
