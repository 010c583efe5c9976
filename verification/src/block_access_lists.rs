//! Fetching block access lists from peers.
use std::sync::Arc;

use vstd::prelude::*;

use crate::client::DownloadClient;
use crate::primitives::B256;
use crate::request::{PeerRequestResult, Priority};

verus! {

/// The access lists of blocks, each as it is encoded.
#[derive(Debug)]
pub struct BlockAccessLists {
    /// The lists, one for each block.
    pub lists: Vec<Vec<u8>>,
}

/// A client for fetching block access lists from peers over the eth/71 protocol.
///
/// # eth/71 only
///
/// Block access lists are only available via the eth/71 protocol. Implementations must ensure
/// that requests are only sent to peers that have negotiated the eth/71 capability.
pub trait BlockAccessListsClient: DownloadClient {
    /// The output type for block access lists requests.
    type Output: core::future::Future<
        Output = PeerRequestResult<BlockAccessLists>,
    > + Send + Sync + Unpin;

    /// Fetches block access lists for the given block hashes from a suitable peer.
    ///
    /// The response will contain the access lists for the requested blocks, in the same order as
    /// the input hashes.
    fn get_block_access_lists(&self, hashes: Vec<B256>) -> (output: Self::Output)
        default_ensures
            call_ensures(
                Self::get_block_access_lists_with_priority,
                (self, hashes, Priority::Normal),
                output,
            ),
    {
        self.get_block_access_lists_with_priority(hashes, Priority::Normal)
    }

    /// Fetches block access lists for the given block hashes with a specific priority.
    ///
    /// Higher priority requests will be dispatched before lower priority ones.
    fn get_block_access_lists_with_priority(&self, hashes: Vec<B256>, priority: Priority) -> (output:
        Self::Output);
}

impl<'a, T: BlockAccessListsClient + ?Sized> BlockAccessListsClient for &'a T {
    type Output = T::Output;

    fn get_block_access_lists(&self, hashes: Vec<B256>) -> (output: T::Output)
        ensures
            call_ensures(T::get_block_access_lists, (*self, hashes), output),
    {
        T::get_block_access_lists(*self, hashes)
    }

    fn get_block_access_lists_with_priority(&self, hashes: Vec<B256>, priority: Priority) -> (output:
        T::Output)
        ensures
            call_ensures(
                T::get_block_access_lists_with_priority,
                (*self, hashes, priority),
                output,
            ),
    {
        T::get_block_access_lists_with_priority(*self, hashes, priority)
    }
}

impl<T: BlockAccessListsClient + ?Sized> BlockAccessListsClient for Arc<T> {
    type Output = T::Output;

    fn get_block_access_lists(&self, hashes: Vec<B256>) -> (output: T::Output)
        ensures
            call_ensures(T::get_block_access_lists, (&**self, hashes), output),
    {
        T::get_block_access_lists(&**self, hashes)
    }

    fn get_block_access_lists_with_priority(&self, hashes: Vec<B256>, priority: Priority) -> (output:
        T::Output)
        ensures
            call_ensures(
                T::get_block_access_lists_with_priority,
                (&**self, hashes, priority),
                output,
            ),
    {
        T::get_block_access_lists_with_priority(&**self, hashes, priority)
    }
}

impl<T: BlockAccessListsClient + ?Sized> BlockAccessListsClient for Box<T> {
    type Output = T::Output;

    fn get_block_access_lists(&self, hashes: Vec<B256>) -> (output: T::Output)
        ensures
            call_ensures(T::get_block_access_lists, (&**self, hashes), output),
    {
        T::get_block_access_lists(&**self, hashes)
    }

    fn get_block_access_lists_with_priority(&self, hashes: Vec<B256>, priority: Priority) -> (output:
        T::Output)
        ensures
            call_ensures(
                T::get_block_access_lists_with_priority,
                (&**self, hashes, priority),
                output,
            ),
    {
        T::get_block_access_lists_with_priority(&**self, hashes, priority)
    }
}

} // verus!
