//! Clients that download full blocks.
use std::sync::Arc;

use vstd::prelude::*;

use crate::consensus::TestConsensus;
use crate::full_block::FetchFullBlockFuture;
use crate::full_block_range::FetchFullBlockRangeFuture;
use crate::primitives::{Header, PeerId, WithPeerId, B256};
use crate::request::{ClientAction, HeadersRequest, PeerRequestResult, Priority};

verus! {

/// A client that downloads from peers.
pub trait DownloadClient {
    /// Reports that a peer sent a bad message.
    fn report_bad_message(&self, peer_id: PeerId);

    /// Returns how many peers are connected.
    fn num_connected_peers(&self) -> (count: usize);
}

impl<'a, T: DownloadClient + ?Sized> DownloadClient for &'a T {
    fn report_bad_message(&self, peer_id: PeerId)
        ensures
            call_ensures(T::report_bad_message, (*self, peer_id), ()),
    {
        T::report_bad_message(*self, peer_id)
    }

    fn num_connected_peers(&self) -> (count: usize)
        ensures
            call_ensures(T::num_connected_peers, (*self,), count),
    {
        T::num_connected_peers(*self)
    }
}

impl<T: DownloadClient + ?Sized> DownloadClient for Arc<T> {
    fn report_bad_message(&self, peer_id: PeerId)
        ensures
            call_ensures(T::report_bad_message, (&**self, peer_id), ()),
    {
        T::report_bad_message(&**self, peer_id)
    }

    fn num_connected_peers(&self) -> (count: usize)
        ensures
            call_ensures(T::num_connected_peers, (&**self,), count),
    {
        T::num_connected_peers(&**self)
    }
}

impl<T: DownloadClient + ?Sized> DownloadClient for Box<T> {
    fn report_bad_message(&self, peer_id: PeerId)
        ensures
            call_ensures(T::report_bad_message, (&**self, peer_id), ()),
    {
        T::report_bad_message(&**self, peer_id)
    }

    fn num_connected_peers(&self) -> (count: usize)
        ensures
            call_ensures(T::num_connected_peers, (&**self,), count),
    {
        T::num_connected_peers(&**self)
    }
}

/// A client that can fetch full blocks from the network.
#[derive(Debug)]
pub struct FullBlockClient<Client, C> {
    client: Client,
    consensus: Arc<C>,
}

impl<Client: Clone, C> Clone for FullBlockClient<Client, C> {
    fn clone(&self) -> (full_block_client: FullBlockClient<Client, C>)
        ensures
            cloned::<Client>(self.spec_client(), full_block_client.spec_client()),
            full_block_client.spec_consensus() == self.spec_consensus(),
    {
        FullBlockClient { client: self.client.clone(), consensus: self.consensus.clone() }
    }
}

impl<Client, C> FullBlockClient<Client, C> {
    /// The client that the blocks are requested of.
    pub closed spec fn spec_client(self) -> Client {
        self.client
    }

    /// The consensus rules that headers and bodies are held to.
    pub closed spec fn spec_consensus(self) -> Arc<C> {
        self.consensus
    }

    /// Creates a new `FullBlockClient`.
    pub fn new(client: Client, consensus: Arc<C>) -> (full_block_client: FullBlockClient<Client, C>)
        ensures
            full_block_client.spec_client() == client,
            full_block_client.spec_consensus() == consensus,
    {
        FullBlockClient { client, consensus }
    }

    /// Returns the client that the blocks are requested of.
    pub fn client(&self) -> (client: &Client)
        ensures
            *client == self.spec_client(),
    {
        &self.client
    }

    /// Returns the consensus rules that headers and bodies are held to.
    pub fn consensus(&self) -> (consensus: &Arc<C>)
        ensures
            *consensus == self.spec_consensus(),
    {
        &self.consensus
    }

    /// Starts the download of the block with the given hash, and returns the requests for its
    /// header and its body.
    ///
    /// The header of the block matches the requested hash. Whether the body belongs to the header
    /// is for the consensus rules to say; the transactions are not validated.
    pub fn get_full_block<B>(&self, hash: B256) -> (started: (
        FetchFullBlockFuture<B>,
        Vec<ClientAction>,
    ))
        ensures
            started.0@ == crate::full_block::FetchState::<B>::start(hash),
            started.0@.hash == hash,
            started.0@.request.header && started.0@.request.body,
            started.0@.header is None && started.0@.body is None,
            started.0@.wf(),
            started.1@ == seq![ClientAction::GetHeader(hash), ClientAction::GetBlockBody(hash)],
    {
        FetchFullBlockFuture::new(hash)
    }

    /// Starts the download of `count` blocks, of which the first has the given hash.
    ///
    /// The header of the first block matches the requested hash, and there are as many blocks as
    /// requested. They come in falling order, that is, with descending block numbers. Whether a
    /// body belongs to its header is for the consensus rules to say; the transactions are not
    /// validated.
    pub fn get_full_block_range<B>(&self, hash: B256, count: u64) -> (future:
        FetchFullBlockRangeFuture<B>)
        ensures
            future@ == crate::full_block_range::RangeState::<B>::start(hash, count),
            future@.start_hash == hash,
            future@.next_request_hash == hash,
            future@.total_to_download == count,
            future@.headers_downloaded == 0,
            !future@.headers_request && !future@.bodies_request,
            future@.pending_headers.len() == 0,
            future@.in_flight_bodies.len() == 0,
            future@.downloaded_blocks.len() == 0,
            future@.wf(),
    {
        FetchFullBlockRangeFuture::new(hash, count)
    }
}

impl<Client> FullBlockClient<Client, TestConsensus> {
    /// Returns a client with consensus rules for tests, which accept everything.
    pub fn test_client(client: Client) -> (full_block_client: FullBlockClient<
        Client,
        TestConsensus,
    >)
        ensures
            full_block_client.spec_client() == client,
            !full_block_client.spec_consensus().fail_validation,
            !full_block_client.spec_consensus().fail_body_against_header,
    {
        FullBlockClient::new(client, Arc::new(TestConsensus::default()))
    }
}

/// Calls `random` of `alloy_primitives::B512`, the bytes of a peer's identity.
///
/// Nothing is claimed of the bytes: they are drawn at random. The call fails only where the
/// system has no source of randomness.
#[verifier::external_body]
fn random_peer_id_bytes() -> (bytes: [u8; 64]) {
    alloy_primitives::B512::random().into()
}

/// A headers and bodies client that does nothing.
///
/// `B` is the type of the bodies that it does not have.
#[derive(Debug)]
#[non_exhaustive]
pub struct NoopFullBlockClient<B>(core::marker::PhantomData<B>);

impl<B> Default for NoopFullBlockClient<B> {
    fn default() -> (client: NoopFullBlockClient<B>) {
        NoopFullBlockClient(core::marker::PhantomData)
    }
}

impl<B> Clone for NoopFullBlockClient<B> {
    fn clone(&self) -> (client: NoopFullBlockClient<B>)
        ensures
            client == *self,
    {
        NoopFullBlockClient(core::marker::PhantomData)
    }
}

impl<B> DownloadClient for NoopFullBlockClient<B> {
    fn report_bad_message(&self, _peer_id: PeerId) {
    }

    fn num_connected_peers(&self) -> (count: usize)
        ensures
            count == 0,
    {
        0
    }
}

impl<B> NoopFullBlockClient<B> {
    /// Answers a request for bodies at once, with no bodies, in the name of a random peer.
    pub fn get_block_bodies_with_priority_and_range_hint(
        &self,
        _hashes: Vec<B256>,
        _priority: Priority,
        _range_hint: Option<core::ops::RangeInclusive<u64>>,
    ) -> (response: PeerRequestResult<Vec<B>>)
        ensures
            response matches Ok(bodies) && bodies.data@.len() == 0,
    {
        Ok(WithPeerId::new(PeerId { bytes: random_peer_id_bytes() }, Vec::new()))
    }

    /// Answers a request for headers at once, with no headers, in the name of a random peer.
    pub fn get_headers_with_priority(&self, _request: HeadersRequest, _priority: Priority) -> (
    response: PeerRequestResult<Vec<Header>>)
        ensures
            response matches Ok(headers) && headers.data@.len() == 0,
    {
        Ok(WithPeerId::new(PeerId { bytes: random_peer_id_bytes() }, Vec::new()))
    }
}

} // verus!
