//! Whole downloads, against a client that holds blocks in memory.
use std::collections::HashMap;
use std::sync::Arc;

use network_p2p::client::FullBlockClient;
use network_p2p::consensus::{Consensus, TestConsensus};
use network_p2p::full_block::{FetchFullBlockFuture, PollStep, RequestEvent};
use network_p2p::full_block_range::{
    FetchFullBlockRangeFuture, RangeEvent, RangeStep, PIPELINE_BATCH_SIZE,
};
use network_p2p::primitives::{Header, PeerId, SealedBlock, SealedHeader, WithPeerId, B256};
use network_p2p::request::{
    BlockHashOrNumber, ClientAction, HeadersDirection, HeadersRequest, Poll,
};

#[derive(Clone, Debug, Default, PartialEq)]
struct BlockBody {
    transactions: Vec<Vec<u8>>,
}

fn default_header() -> Header {
    let header = alloy_consensus::Header::default();
    Header {
        parent_hash: B256 { bytes: header.parent_hash.into() },
        ommers_hash: header.ommers_hash.into(),
        beneficiary: header.beneficiary.into(),
        state_root: header.state_root.into(),
        transactions_root: header.transactions_root.into(),
        receipts_root: header.receipts_root.into(),
        logs_bloom: header.logs_bloom.into(),
        difficulty: header.difficulty.to_be_bytes(),
        number: header.number,
        gas_limit: header.gas_limit,
        gas_used: header.gas_used,
        timestamp: header.timestamp,
        extra_data: header.extra_data.to_vec(),
        mix_hash: header.mix_hash.into(),
        nonce: header.nonce.into(),
        base_fee_per_gas: None,
        withdrawals_root: None,
        blob_gas_used: None,
        excess_blob_gas: None,
        parent_beacon_block_root: None,
        requests_hash: None,
        block_access_list_hash: None,
        slot_number: None,
    }
}

fn default_sealed_header() -> SealedHeader {
    SealedHeader::seal_slow(default_header())
}

/// A client that answers requests out of the blocks that were inserted into it, at most
/// `soft_limit` headers or bodies at a time.
#[derive(Clone, Debug)]
struct TestFullBlockClient {
    headers: HashMap<B256, Header>,
    bodies: HashMap<B256, BlockBody>,
    soft_limit: usize,
    peer_id: PeerId,
}

impl TestFullBlockClient {
    fn new() -> TestFullBlockClient {
        TestFullBlockClient {
            headers: HashMap::new(),
            bodies: HashMap::new(),
            soft_limit: 20,
            peer_id: PeerId { bytes: [1; 64] },
        }
    }

    fn insert(&mut self, header: SealedHeader, body: BlockBody) {
        self.headers.insert(header.hash, header.header);
        self.bodies.insert(header.hash, body);
    }

    fn get_headers(&self, request: HeadersRequest) -> WithPeerId<Vec<Header>> {
        assert_eq!(request.direction, HeadersDirection::Falling);
        let mut next = match request.start {
            BlockHashOrNumber::Hash(hash) => hash,
            BlockHashOrNumber::Number(_) => panic!("requests start with a hash"),
        };
        let mut headers = Vec::new();
        while headers.len() < self.soft_limit && (headers.len() as u64) < request.limit {
            match self.headers.get(&next) {
                Some(header) => {
                    next = header.parent_hash;
                    headers.push(header.clone());
                }
                None => return WithPeerId::new(self.peer_id, headers),
            }
        }
        WithPeerId::new(self.peer_id, headers)
    }

    fn get_block_bodies(&self, hashes: Vec<B256>) -> WithPeerId<Vec<BlockBody>> {
        let bodies = hashes
            .iter()
            .filter_map(|hash| self.bodies.get(hash).cloned())
            .take(self.soft_limit)
            .collect();
        WithPeerId::new(self.peer_id, bodies)
    }
}

/// Drives the download of a block until it is done.
fn get_full_block<C: Consensus<BlockBody>>(
    full_block_client: &FullBlockClient<TestFullBlockClient, C>,
    hash: B256,
) -> SealedBlock<BlockBody> {
    let client = full_block_client.client();
    let (mut future, mut actions): (FetchFullBlockFuture<BlockBody>, Vec<ClientAction>) =
        full_block_client.get_full_block(hash);
    assert_eq!(actions, vec![ClientAction::GetHeader(hash), ClientAction::GetBlockBody(hash)]);
    let mut event = RequestEvent::Start;
    loop {
        let (step, more) = future.poll(&**full_block_client.consensus(), event);
        actions = more;
        assert!(actions.is_empty());
        event = match step {
            PollStep::PollHeader => RequestEvent::Header(Poll::Ready(Ok(WithPeerId::new(
                client.peer_id,
                client.headers.get(&hash).cloned(),
            )))),
            PollStep::PollBody => RequestEvent::Body(Poll::Ready(Ok(WithPeerId::new(
                client.peer_id,
                client.bodies.get(&hash).cloned(),
            )))),
            PollStep::Ready(block) => return block,
            PollStep::Pending | PollStep::Yield => RequestEvent::Start,
        };
    }
}

/// Drives the download of a range for a number of events at most. Returns the blocks, if the
/// download is done, and how often the peer was reported.
fn drive_range<C: Consensus<BlockBody>>(
    full_block_client: &FullBlockClient<TestFullBlockClient, C>,
    hash: B256,
    count: u64,
    max_events: usize,
) -> (Option<Vec<SealedBlock<BlockBody>>>, usize) {
    let client = full_block_client.client();
    let mut future: FetchFullBlockRangeFuture<BlockBody> =
        full_block_client.get_full_block_range(hash, count);
    let mut headers_request = None;
    let mut bodies_request = None;
    let mut reports = 0;
    let mut event = RangeEvent::Start;
    for _ in 0..max_events {
        let polled = future.poll(&**full_block_client.consensus(), event);
        reports += polled.reports.len();
        if let Some(request) = polled.requests.headers {
            assert!(request.limit <= PIPELINE_BATCH_SIZE);
            assert!(headers_request.replace(request).is_none());
        }
        if let Some(hashes) = polled.requests.bodies {
            assert!(hashes.len() <= PIPELINE_BATCH_SIZE as usize);
            assert!(bodies_request.replace(hashes).is_none());
        }
        event = match polled.step {
            RangeStep::PollHeaders => RangeEvent::Headers(Poll::Ready(Ok(
                client.get_headers(headers_request.take().unwrap())
            ))),
            RangeStep::PollBodies => RangeEvent::Bodies(Poll::Ready(Ok(
                client.get_block_bodies(bodies_request.take().unwrap())
            ))),
            RangeStep::Ready(blocks) => return (Some(blocks), reports),
            RangeStep::Pending => RangeEvent::Start,
        };
    }
    (None, reports)
}

fn get_full_block_range<C: Consensus<BlockBody>>(
    full_block_client: &FullBlockClient<TestFullBlockClient, C>,
    hash: B256,
    count: u64,
) -> Vec<SealedBlock<BlockBody>> {
    drive_range(full_block_client, hash, count, 10_000).0.unwrap()
}

/// Inserts headers and returns the last header and block body.
fn insert_headers_into_client(
    client: &mut TestFullBlockClient,
    range: std::ops::Range<usize>,
) -> (SealedHeader, BlockBody) {
    let mut sealed_header = default_sealed_header();
    let body = BlockBody::default();
    for i in range {
        let mut header = sealed_header.header;
        // update to the next header
        header.parent_hash = sealed_header.hash;
        header.number = i as u64 + 1; // Start from block 1

        sealed_header = SealedHeader::seal_slow(header);

        client.insert(sealed_header.clone(), body.clone());
    }

    (sealed_header, body)
}

#[test]
fn download_single_full_block() {
    let mut client = TestFullBlockClient::new();
    let header = default_sealed_header();
    let body = BlockBody::default();
    client.insert(header.clone(), body.clone());
    let client = FullBlockClient::test_client(client);

    let received = get_full_block(&client, header.hash());
    assert_eq!(received, SealedBlock::from_sealed_parts(header, body));
}

#[test]
fn download_single_full_block_range() {
    let mut client = TestFullBlockClient::new();
    let header = default_sealed_header();
    let body = BlockBody::default();
    client.insert(header.clone(), body.clone());
    let client = FullBlockClient::test_client(client);

    let received = get_full_block_range(&client, header.hash(), 1);
    let received = received.first().expect("response should include a block");
    assert_eq!(*received, SealedBlock::from_sealed_parts(header, body));
}

#[test]
fn download_full_block_range() {
    let mut client = TestFullBlockClient::new();
    let (header, body) = insert_headers_into_client(&mut client, 0..50);
    let client = FullBlockClient::test_client(client);

    let received = get_full_block_range(&client, header.hash(), 1);
    let received = received.first().expect("response should include a block");
    assert_eq!(*received, SealedBlock::from_sealed_parts(header.clone(), body));

    let received = get_full_block_range(&client, header.hash(), 10);
    assert_eq!(received.len(), 10);
    for (i, block) in received.iter().enumerate() {
        let expected_number = header.number() - i as u64;
        assert_eq!(block.header.number(), expected_number);
    }
}

#[test]
fn download_full_block_range_over_soft_limit() {
    // Test with a number larger than the pipeline batch size to test batching logic.
    let num_blocks = PIPELINE_BATCH_SIZE + 10;
    let mut client = TestFullBlockClient::new();
    let (header, _) = insert_headers_into_client(&mut client, 0..num_blocks as usize);
    let client = FullBlockClient::test_client(client);

    let received = get_full_block_range(&client, header.hash(), num_blocks);
    assert_eq!(received.len(), num_blocks as usize);
    for (i, block) in received.iter().enumerate() {
        let expected_number = header.number() - i as u64;
        assert_eq!(block.header.number(), expected_number);
    }
}

#[test]
fn download_full_block_range_with_invalid_header() {
    let mut client = TestFullBlockClient::new();
    let range_length: u64 = 3;
    let (header, _) = insert_headers_into_client(&mut client, 0..range_length as usize);

    let mut test_consensus = TestConsensus::default();
    // This will cause the header range validation to fail.
    test_consensus.set_fail_validation(true);
    let failing = FullBlockClient::new(client.clone(), Arc::new(test_consensus));
    // The download does not succeed, and every response is reported.
    let (received, reports) = drive_range(&failing, header.hash(), range_length, 100);
    assert!(received.is_none());
    assert_eq!(reports, 99);

    let client_valid = FullBlockClient::new(client, Arc::new(TestConsensus::default()));
    let received = get_full_block_range(&client_valid, header.hash(), range_length);

    assert_eq!(received.len(), range_length as usize);
    for (i, block) in received.iter().enumerate() {
        let expected_number = header.number() - i as u64;
        assert_eq!(block.header.number(), expected_number);
    }
}

#[test]
fn a_full_batch_is_downloaded_in_two_requests() {
    let num_blocks = PIPELINE_BATCH_SIZE;
    let mut client = TestFullBlockClient::new();
    client.soft_limit = 1000;
    let (header, _) = insert_headers_into_client(&mut client, 0..num_blocks as usize);
    let client = FullBlockClient::test_client(client);
    // The poll starts, the headers come, the bodies come.
    let (received, reports) = drive_range(&client, header.hash(), num_blocks, 3);
    assert_eq!(received.unwrap().len(), 64);
    assert_eq!(reports, 0);
}

#[test]
fn an_empty_range_is_complete_at_once() {
    let client = FullBlockClient::test_client(TestFullBlockClient::new());
    let (received, reports) = drive_range(&client, B256 { bytes: [7; 32] }, 0, 1);
    assert_eq!(received.unwrap(), vec![]);
    assert_eq!(reports, 0);
}
