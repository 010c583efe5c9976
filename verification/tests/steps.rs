//! Single steps of the downloads.
use std::cell::RefCell;
use std::sync::Arc;

use network_p2p::block_access_lists::{BlockAccessLists, BlockAccessListsClient};
use network_p2p::client::{DownloadClient, FullBlockClient, NoopFullBlockClient};
use network_p2p::consensus::{
    is_body_valid, is_range_valid, Consensus, HeaderValidator, TestConsensus,
};
use network_p2p::full_block::{
    BodyResponse, FetchFullBlockFuture, FullBlockRequest, PollStep, RequestEvent, RequestStep,
    ResponseResult, POLL_BUDGET,
};
use network_p2p::full_block_range::{
    FetchFullBlockRangeFuture, RangeEvent, RangePoll, RangeStep, PIPELINE_BATCH_SIZE,
};
use network_p2p::order::{reversed, sort_rising};
use network_p2p::primitives::{Header, PeerId, SealedHeader, WithPeerId, B256};
use network_p2p::request::{
    BlockHashOrNumber, ClientAction, HeadersDirection, HeadersRequest, PeerRequestResult, Poll,
    Priority, RequestError,
};

fn header(parent_hash: B256, number: u64) -> Header {
    Header {
        parent_hash,
        ommers_hash: [0x11; 32],
        beneficiary: [0x22; 20],
        state_root: [0x33; 32],
        transactions_root: [0x44; 32],
        receipts_root: [0x55; 32],
        logs_bloom: [0x66; 256],
        difficulty: [0; 32],
        number,
        gas_limit: 30_000_000,
        gas_used: 21_000,
        timestamp: 1_700_000_000,
        extra_data: vec![1, 2, 3],
        mix_hash: [0x77; 32],
        nonce: [0; 8],
        base_fee_per_gas: None,
        withdrawals_root: None,
        blob_gas_used: None,
        excess_blob_gas: None,
        parent_beacon_block_root: None,
        requests_hash: None,
        block_access_list_hash: None,
        slot_number: None,
    }
}

fn zero() -> B256 {
    B256 { bytes: [0; 32] }
}

fn peer(id: u8) -> PeerId {
    PeerId { bytes: [id; 64] }
}

/// `count` linked headers, the one with the highest number, `top`, first.
fn chain(top: u64, count: u64) -> Vec<SealedHeader> {
    let mut rising: Vec<SealedHeader> = Vec::new();
    let mut parent_hash = zero();
    for number in top + 1 - count..top + 1 {
        let sealed_header = SealedHeader::seal_slow(header(parent_hash, number));
        parent_hash = sealed_header.hash();
        rising.push(sealed_header);
    }
    rising.reverse();
    rising
}

fn unsealed(headers: &[SealedHeader]) -> Vec<Header> {
    headers.iter().map(|sealed_header| sealed_header.header.clone()).collect()
}

/// Consensus rules by which a body belongs to a header if it is the header's number, and a range
/// is valid if none of its numbers is `bad_number`. Ranges that were asked for are kept.
struct NumberConsensus {
    bad_number: u64,
    ranges: RefCell<Vec<Vec<u64>>>,
}

impl NumberConsensus {
    fn new(bad_number: u64) -> NumberConsensus {
        NumberConsensus { bad_number, ranges: RefCell::new(Vec::new()) }
    }
}

impl HeaderValidator for NumberConsensus {
    type Error = u64;

    fn validate_header_range(&self, headers: &[SealedHeader]) -> Result<(), u64> {
        let numbers: Vec<u64> = headers.iter().map(|h| h.number()).collect();
        self.ranges.borrow_mut().push(numbers.clone());
        if numbers.contains(&self.bad_number) {
            Err(self.bad_number)
        } else {
            Ok(())
        }
    }
}

impl Consensus<u64> for NumberConsensus {
    fn validate_body_against_header(&self, body: &u64, header: &SealedHeader) -> Result<(), u64> {
        if *body == header.number() {
            Ok(())
        } else {
            Err(*body)
        }
    }
}

type BlockDownload = FetchFullBlockFuture<u64>;
type RangeDownload = FetchFullBlockRangeFuture<u64>;

fn start_block(hash: B256) -> BlockDownload {
    let (future, actions) = FullBlockClient::test_client(()).get_full_block(hash);
    assert_eq!(actions, vec![ClientAction::GetHeader(hash), ClientAction::GetBlockBody(hash)]);
    future
}

fn got_header(id: u8, header: Option<Header>) -> RequestEvent<u64> {
    RequestEvent::Header(Poll::Ready(Ok(WithPeerId::new(peer(id), header))))
}

fn got_body(id: u8, body: Option<u64>) -> RequestEvent<u64> {
    RequestEvent::Body(Poll::Ready(Ok(WithPeerId::new(peer(id), body))))
}

#[test]
fn header_hash_is_that_of_the_consensus_header() {
    let expected = alloy_consensus::Header {
        parent_hash: [9; 32].into(),
        ommers_hash: [0x11; 32].into(),
        beneficiary: [0x22; 20].into(),
        state_root: [0x33; 32].into(),
        transactions_root: [0x44; 32].into(),
        receipts_root: [0x55; 32].into(),
        logs_bloom: [0x66; 256].into(),
        difficulty: alloy_primitives::U256::from(0x0102),
        number: 12,
        gas_limit: 30_000_000,
        gas_used: 21_000,
        timestamp: 1_700_000_000,
        extra_data: vec![1, 2, 3].into(),
        mix_hash: [0x77; 32].into(),
        nonce: [8; 8].into(),
        base_fee_per_gas: Some(7),
        withdrawals_root: Some([0x81; 32].into()),
        blob_gas_used: Some(5),
        excess_blob_gas: Some(6),
        parent_beacon_block_root: Some([0x82; 32].into()),
        requests_hash: Some([0x83; 32].into()),
        block_access_list_hash: Some([0x84; 32].into()),
        slot_number: Some(99),
    };
    let mut header = header(B256 { bytes: [9; 32] }, 12);
    header.difficulty[30] = 1;
    header.difficulty[31] = 2;
    header.nonce = [8; 8];
    header.base_fee_per_gas = Some(7);
    header.withdrawals_root = Some([0x81; 32]);
    header.blob_gas_used = Some(5);
    header.excess_blob_gas = Some(6);
    header.parent_beacon_block_root = Some([0x82; 32]);
    header.requests_hash = Some([0x83; 32]);
    header.block_access_list_hash = Some([0x84; 32]);
    header.slot_number = Some(99);
    let expected: [u8; 32] = expected.hash_slow().into();
    assert_eq!(header.hash_slow(), B256 { bytes: expected });
    let sealed_header = SealedHeader::seal_slow(header.clone());
    assert_eq!(sealed_header.hash(), header.hash_slow());
    assert_eq!(sealed_header.number(), 12);
    assert_eq!(sealed_header.parent_hash(), B256 { bytes: [9; 32] });
}

#[test]
fn hash_of_the_default_header_is_known() {
    let mut empty = header(zero(), 0);
    let default = alloy_consensus::Header::default();
    empty.ommers_hash = default.ommers_hash.into();
    empty.beneficiary = [0; 20];
    empty.state_root = default.state_root.into();
    empty.transactions_root = default.transactions_root.into();
    empty.receipts_root = default.receipts_root.into();
    empty.logs_bloom = [0; 256];
    empty.gas_limit = 0;
    empty.gas_used = 0;
    empty.timestamp = 0;
    empty.extra_data = vec![];
    empty.mix_hash = [0; 32];
    let hash: [u8; 32] = default.hash_slow().into();
    assert_eq!(empty.hash_slow().bytes, hash);
    let mut other = empty.clone();
    other.number = 1;
    assert_ne!(other.hash_slow().bytes, hash);
}

#[test]
fn hashes_and_peers_are_compared_byte_by_byte() {
    let mut hash = zero();
    assert_eq!(hash, zero());
    hash.bytes[31] = 1;
    assert_ne!(hash, zero());
    let mut other = peer(3);
    assert_eq!(other, peer(3));
    other.bytes[63] = 4;
    assert_ne!(other, peer(3));
}

#[test]
fn header_request_is_polled_before_body_request() {
    let mut request = FullBlockRequest { header: true, body: true };
    assert!(matches!(request.poll(RequestEvent::<u64>::Start), RequestStep::PollHeader));
    let pending = RequestEvent::<u64>::Header(Poll::Pending);
    assert!(matches!(request.poll(pending), RequestStep::PollBody));
    assert!(matches!(
        request.poll(got_body(1, Some(5))),
        RequestStep::Ready(ResponseResult::Body(Ok(_)))
    ));
    assert_eq!(request, FullBlockRequest { header: true, body: false });
    let pending = RequestEvent::<u64>::Header(Poll::Pending);
    assert!(matches!(request.poll(pending), RequestStep::Pending));
    assert!(matches!(
        request.poll(got_header(1, None)),
        RequestStep::Ready(ResponseResult::Header(Ok(_)))
    ));
    assert_eq!(request, FullBlockRequest { header: false, body: false });
    assert!(matches!(request.poll(RequestEvent::<u64>::Start), RequestStep::Pending));
}

#[test]
fn header_first_makes_the_block() {
    let wanted = SealedHeader::seal_slow(header(zero(), 5));
    let consensus = NumberConsensus::new(0);
    let mut future = start_block(wanted.hash());
    assert_eq!(*future.hash(), wanted.hash());
    assert_eq!(future.block_number(), None);
    let (step, actions) = future.poll(&consensus, RequestEvent::Start);
    assert!(matches!(step, PollStep::PollHeader));
    assert_eq!(actions, vec![]);
    let (step, actions) = future.poll(&consensus, got_header(1, Some(wanted.header.clone())));
    assert!(matches!(step, PollStep::PollBody));
    assert_eq!(actions, vec![]);
    assert_eq!(future.block_number(), Some(5));
    let (step, actions) = future.poll(&consensus, got_body(2, Some(5)));
    assert_eq!(actions, vec![]);
    match step {
        PollStep::Ready(block) => {
            assert_eq!(block.header, wanted);
            assert_eq!(block.body, 5);
        }
        _ => panic!("both parts are there"),
    }
}

#[test]
fn body_first_is_validated_with_the_header() {
    let wanted = SealedHeader::seal_slow(header(zero(), 5));
    let consensus = NumberConsensus::new(0);
    let mut future = start_block(wanted.hash());
    future.poll(&consensus, RequestEvent::Start);
    let (step, _) = future.poll(&consensus, RequestEvent::Header(Poll::Pending));
    assert!(matches!(step, PollStep::PollBody));
    // A wrong body is only found out once the header is there.
    let (step, actions) = future.poll(&consensus, got_body(2, Some(6)));
    assert!(matches!(step, PollStep::PollHeader));
    assert_eq!(actions, vec![]);
    assert!(matches!(future.body(), Some(BodyResponse::PendingValidation(_))));
    let (step, actions) = future.poll(&consensus, got_header(1, Some(wanted.header.clone())));
    assert!(matches!(step, PollStep::PollBody));
    assert_eq!(
        actions,
        vec![
            ClientAction::ReportBadMessage(peer(2)),
            ClientAction::GetBlockBody(wanted.hash()),
        ]
    );
    assert_eq!(*future.header(), Some(wanted.clone()));
    let (step, _) = future.poll(&consensus, got_body(3, Some(5)));
    assert!(matches!(step, PollStep::Ready(block) if block.header == wanted && block.body == 5));
}

#[test]
fn wrong_header_is_reported_and_requested_again() {
    let wanted = SealedHeader::seal_slow(header(zero(), 5));
    let consensus = NumberConsensus::new(0);
    let mut future = start_block(wanted.hash());
    future.poll(&consensus, RequestEvent::Start);
    let (step, actions) = future.poll(&consensus, got_header(1, Some(header(zero(), 6))));
    assert!(matches!(step, PollStep::PollHeader));
    assert_eq!(
        actions,
        vec![ClientAction::ReportBadMessage(peer(1)), ClientAction::GetHeader(wanted.hash())]
    );
    assert_eq!(*future.header(), None);
}

#[test]
fn wrong_body_is_reported_and_requested_again() {
    let wanted = SealedHeader::seal_slow(header(zero(), 5));
    let consensus = NumberConsensus::new(0);
    let mut future = start_block(wanted.hash());
    future.poll(&consensus, RequestEvent::Start);
    future.poll(&consensus, got_header(1, Some(wanted.header.clone())));
    let (step, actions) = future.poll(&consensus, got_body(2, Some(4)));
    assert!(matches!(step, PollStep::PollBody));
    assert_eq!(
        actions,
        vec![
            ClientAction::ReportBadMessage(peer(2)),
            ClientAction::GetBlockBody(wanted.hash()),
        ]
    );
    assert!(future.body().is_none());
}

#[test]
fn failed_and_empty_responses_are_retried_without_a_report() {
    let wanted = SealedHeader::seal_slow(header(zero(), 5));
    let consensus = NumberConsensus::new(0);
    for error in [
        RequestError::ChannelClosed,
        RequestError::ConnectionDropped,
        RequestError::UnsupportedCapability,
        RequestError::Timeout,
        RequestError::BadResponse,
    ] {
        let mut future = start_block(wanted.hash());
        future.poll(&consensus, RequestEvent::Start);
        let (_, actions) = future.poll(&consensus, RequestEvent::Header(Poll::Ready(Err(error))));
        assert_eq!(actions, vec![ClientAction::GetHeader(wanted.hash())]);
        let (_, actions) = future.poll(&consensus, RequestEvent::Body(Poll::Ready(Err(error))));
        assert_eq!(actions, vec![ClientAction::GetBlockBody(wanted.hash())]);
    }
    let mut future = start_block(wanted.hash());
    future.poll(&consensus, RequestEvent::Start);
    let (_, actions) = future.poll(&consensus, got_header(1, None));
    assert_eq!(actions, vec![ClientAction::GetHeader(wanted.hash())]);
    let (_, actions) = future.poll(&consensus, got_body(1, None));
    assert_eq!(actions, vec![ClientAction::GetBlockBody(wanted.hash())]);
}

#[test]
fn a_poll_yields_when_its_budget_is_spent() {
    let wanted = SealedHeader::seal_slow(header(zero(), 5));
    let consensus = NumberConsensus::new(0);
    let mut future = start_block(wanted.hash());
    for _ in 0..2 {
        future.poll(&consensus, RequestEvent::Start);
        for _ in 0..POLL_BUDGET - 1 {
            let (step, _) = future.poll(&consensus, got_header(1, None));
            assert!(matches!(step, PollStep::PollHeader));
        }
        let (step, actions) = future.poll(&consensus, got_header(1, None));
        assert!(matches!(step, PollStep::Yield));
        assert_eq!(actions, vec![ClientAction::GetHeader(wanted.hash())]);
    }
}

#[test]
fn a_block_that_is_complete_when_the_budget_is_spent_comes_with_the_next_poll() {
    let wanted = SealedHeader::seal_slow(header(zero(), 5));
    let consensus = NumberConsensus::new(0);
    let mut future = start_block(wanted.hash());
    future.poll(&consensus, RequestEvent::Start);
    future.poll(&consensus, got_header(1, None));
    future.poll(&consensus, got_header(1, None));
    future.poll(&consensus, got_header(1, Some(wanted.header.clone())));
    let (step, _) = future.poll(&consensus, got_body(1, Some(5)));
    assert!(matches!(step, PollStep::Yield));
    let (step, _) = future.poll(&consensus, RequestEvent::Start);
    assert!(matches!(step, PollStep::Ready(_)));
    // The block is handed out once.
    let (step, actions) = future.poll(&consensus, RequestEvent::Start);
    assert!(matches!(step, PollStep::Pending));
    assert_eq!(actions, vec![]);
}

#[test]
fn a_header_that_spends_the_budget_completes_the_block_in_the_next_poll() {
    let wanted = SealedHeader::seal_slow(header(zero(), 5));
    let consensus = NumberConsensus::new(0);
    let mut future = start_block(wanted.hash());
    future.poll(&consensus, RequestEvent::Start);
    future.poll(&consensus, RequestEvent::Header(Poll::Pending));
    future.poll(&consensus, got_body(2, Some(5)));
    // The header request fails, once in this poll and three times in the next.
    future.poll(&consensus, got_header(1, None));
    future.poll(&consensus, RequestEvent::Start);
    for _ in 0..3 {
        future.poll(&consensus, got_header(1, None));
    }
    let (step, actions) = future.poll(&consensus, got_header(1, Some(wanted.header.clone())));
    assert!(matches!(step, PollStep::Yield));
    assert_eq!(actions, vec![]);
    let (step, actions) = future.poll(&consensus, RequestEvent::Start);
    assert!(matches!(step, PollStep::Ready(block) if block.header == wanted && block.body == 5));
    assert_eq!(actions, vec![]);
}

#[test]
fn a_given_answer_decides_about_a_body() {
    let wanted = SealedHeader::seal_slow(header(zero(), 5));
    for valid in [true, false] {
        let mut actions = Vec::new();
        let mut future = start_block(wanted.hash());
        future.poll(&NumberConsensus::new(0), RequestEvent::Start);
        future.poll(&NumberConsensus::new(0), got_header(1, Some(wanted.header.clone())));
        future.store_body(WithPeerId::new(peer(2), 77), valid, &mut actions);
        if valid {
            assert!(matches!(future.body(), Some(BodyResponse::Validated(77))));
            assert_eq!(actions, vec![]);
        } else {
            assert!(future.body().is_none());
            assert_eq!(actions, vec![ClientAction::ReportBadMessage(peer(2))]);
        }

        let mut actions = Vec::new();
        let mut future = start_block(wanted.hash());
        future.store_body(WithPeerId::new(peer(2), 77), valid, &mut actions);
        let response = ResponseResult::Header(Ok(WithPeerId::new(
            peer(1),
            Some(wanted.header.clone()),
        )));
        future.on_response(&NumberConsensus::new(0), response, &mut actions);
        let block = future.take_judged_block(valid, &mut actions);
        assert_eq!(block.is_some(), valid);
        assert_eq!(actions.len(), if valid { 0 } else { 2 });
    }
}

fn start_range(hash: B256, count: u64) -> RangeDownload {
    FullBlockClient::test_client(()).get_full_block_range(hash, count)
}

fn got_headers(id: u8, headers: Vec<Header>) -> RangeEvent<u64> {
    RangeEvent::Headers(Poll::Ready(Ok(WithPeerId::new(peer(id), headers))))
}

fn got_bodies(id: u8, bodies: Vec<u64>) -> RangeEvent<u64> {
    RangeEvent::Bodies(Poll::Ready(Ok(WithPeerId::new(peer(id), bodies))))
}

fn headers_request(start: B256, limit: u64) -> Option<HeadersRequest> {
    Some(HeadersRequest {
        start: BlockHashOrNumber::Hash(start),
        limit,
        direction: HeadersDirection::Falling,
    })
}

fn ready_numbers(polled: RangePoll<u64>) -> Vec<u64> {
    match polled.step {
        RangeStep::Ready(blocks) => blocks.iter().map(|block| block.header.number()).collect(),
        _ => panic!("the download is complete"),
    }
}

#[test]
fn headers_are_requested_in_batches() {
    let consensus = NumberConsensus::new(0);
    let hash = B256 { bytes: [3; 32] };
    let polled = start_range(hash, 100).poll(&consensus, RangeEvent::Start);
    assert_eq!(polled.requests.headers, headers_request(hash, PIPELINE_BATCH_SIZE));
    assert_eq!(polled.requests.bodies, None);
    assert!(matches!(polled.step, RangeStep::PollHeaders));
    let polled = start_range(hash, 64).poll(&consensus, RangeEvent::Start);
    assert_eq!(polled.requests.headers, headers_request(hash, 64));
    let polled = start_range(hash, 63).poll(&consensus, RangeEvent::Start);
    assert_eq!(polled.requests.headers, headers_request(hash, 63));
}

#[test]
fn headers_and_bodies_are_pipelined() {
    let consensus = NumberConsensus::new(0);
    let headers = chain(10, 4);
    let mut future = start_range(headers[0].hash(), 4);
    future.poll(&consensus, RangeEvent::Start);
    // Two of four headers: their bodies and the next headers are requested together.
    let polled = future.poll(&consensus, got_headers(1, unsealed(&headers[..2])));
    assert_eq!(polled.reports, vec![]);
    assert_eq!(polled.requests.headers, headers_request(headers[1].parent_hash(), 2));
    assert_eq!(polled.requests.bodies, Some(vec![headers[0].hash(), headers[1].hash()]));
    assert!(matches!(polled.step, RangeStep::PollHeaders));
    assert_eq!(future.headers_downloaded(), 2);
    assert_eq!(future.in_flight_bodies(), 2);
    let polled = future.poll(&consensus, got_headers(1, unsealed(&headers[2..])));
    assert!(matches!(polled.step, RangeStep::PollBodies));
    assert_eq!(polled.requests.bodies, None);
    assert_eq!(future.pending_headers(), 2);
    let polled = future.poll(&consensus, got_bodies(1, vec![10, 9]));
    assert_eq!(polled.requests.headers, None);
    assert_eq!(polled.requests.bodies, Some(vec![headers[2].hash(), headers[3].hash()]));
    assert_eq!(future.downloaded_blocks(), 2);
    assert!(!future.is_complete());
    let polled = future.poll(&consensus, got_bodies(1, vec![8, 7]));
    assert_eq!(ready_numbers(polled), vec![10, 9, 8, 7]);
    // The rules saw each batch in rising order.
    assert_eq!(*consensus.ranges.borrow(), vec![vec![9, 10], vec![7, 8]]);
    // The blocks are handed out once.
    let polled = future.poll(&consensus, RangeEvent::Start);
    assert!(matches!(polled.step, RangeStep::Pending));
    assert_eq!(polled.requests.headers, None);
    assert_eq!(polled.requests.bodies, None);
}

#[test]
fn unordered_headers_are_sorted() {
    let consensus = NumberConsensus::new(0);
    let headers = chain(10, 3);
    let mut future = start_range(headers[0].hash(), 3);
    future.poll(&consensus, RangeEvent::Start);
    let shuffled =
        vec![headers[0].header.clone(), headers[2].header.clone(), headers[1].header.clone()];
    let polled = future.poll(&consensus, got_headers(1, shuffled));
    assert_eq!(
        polled.requests.bodies,
        Some(vec![headers[0].hash(), headers[1].hash(), headers[2].hash()])
    );
    assert_eq!(*consensus.ranges.borrow(), vec![vec![8, 9, 10]]);
}

fn refused_headers(count: u64, start: B256, headers: Vec<Header>, bad_number: u64) {
    let consensus = NumberConsensus::new(bad_number);
    let mut future = start_range(start, count);
    future.poll(&consensus, RangeEvent::Start);
    let polled = future.poll(&consensus, got_headers(4, headers));
    assert_eq!(polled.reports, vec![peer(4)]);
    assert_eq!(polled.requests.headers, headers_request(start, count));
    assert_eq!(polled.requests.bodies, None);
    assert!(matches!(polled.step, RangeStep::PollHeaders));
    assert_eq!(future.headers_downloaded(), 0);
}

#[test]
fn bad_headers_are_reported_and_requested_again() {
    let headers = chain(10, 3);
    let start = headers[0].hash();
    // A wrong start, no start, the start in the wrong place.
    refused_headers(3, start, unsealed(&headers[1..]), 0);
    refused_headers(3, start, vec![], 0);
    let mut swapped = unsealed(&headers);
    swapped.swap(0, 1);
    refused_headers(3, start, swapped, 0);
    // More headers than requested.
    refused_headers(2, start, unsealed(&headers), 0);
    // Another header as high as the start, or higher.
    refused_headers(2, start, vec![headers[0].header.clone(), header(zero(), 11)], 0);
    refused_headers(2, start, vec![headers[0].header.clone(), header(zero(), 10)], 0);
    // Headers that the consensus rules refuse.
    refused_headers(3, start, unsealed(&headers), 9);
}

#[test]
fn later_headers_stay_below_the_start() {
    let consensus = NumberConsensus::new(0);
    let headers = chain(10, 2);
    let mut future = start_range(headers[0].hash(), 2);
    future.poll(&consensus, RangeEvent::Start);
    future.poll(&consensus, got_headers(1, unsealed(&headers[..1])));
    let polled = future.poll(&consensus, got_headers(2, vec![header(zero(), 12)]));
    assert_eq!(polled.reports, vec![peer(2)]);
    assert_eq!(future.headers_downloaded(), 1);
    // No headers are no reason for a report, once the start is there.
    let polled = future.poll(&consensus, got_bodies(1, vec![10]));
    assert_eq!(polled.requests.headers, headers_request(headers[0].parent_hash(), 1));
    let polled = future.poll(&consensus, got_headers(2, vec![]));
    assert_eq!(polled.reports, vec![]);
    assert_eq!(polled.requests.headers, headers_request(headers[0].parent_hash(), 1));
    future.poll(&consensus, got_headers(2, unsealed(&headers[1..])));
    let polled = future.poll(&consensus, got_bodies(1, vec![9]));
    assert_eq!(ready_numbers(polled), vec![10, 9]);
}

#[test]
fn failed_requests_are_made_again() {
    let consensus = NumberConsensus::new(0);
    let headers = chain(10, 2);
    let hashes = vec![headers[0].hash(), headers[1].hash()];
    let mut future = start_range(headers[0].hash(), 2);
    future.poll(&consensus, RangeEvent::Start);
    let failed = RangeEvent::Headers(Poll::Ready(Err(RequestError::Timeout)));
    let polled = future.poll(&consensus, failed);
    assert_eq!(polled.reports, vec![]);
    assert_eq!(polled.requests.headers, headers_request(headers[0].hash(), 2));
    let polled = future.poll(&consensus, got_headers(1, unsealed(&headers)));
    assert_eq!(polled.requests.bodies, Some(hashes.clone()));
    let failed = RangeEvent::Bodies(Poll::Ready(Err(RequestError::ConnectionDropped)));
    let polled = future.poll(&consensus, failed);
    assert_eq!(polled.reports, vec![]);
    assert_eq!(polled.requests.bodies, Some(hashes.clone()));
    // A response of the wrong length.
    let polled = future.poll(&consensus, got_bodies(3, vec![10]));
    assert_eq!(polled.reports, vec![peer(3)]);
    assert_eq!(polled.requests.bodies, Some(hashes));
    assert_eq!(future.downloaded_blocks(), 0);
}

#[test]
fn refused_bodies_are_requested_again() {
    let consensus = NumberConsensus::new(0);
    let headers = chain(10, 3);
    let mut future = start_range(headers[0].hash(), 3);
    future.poll(&consensus, RangeEvent::Start);
    future.poll(&consensus, got_headers(1, unsealed(&headers)));
    let polled = future.poll(&consensus, got_bodies(2, vec![0, 9, 0]));
    assert_eq!(polled.reports, vec![peer(2), peer(2)]);
    assert_eq!(polled.requests.bodies, Some(vec![headers[0].hash(), headers[2].hash()]));
    assert_eq!(future.downloaded_blocks(), 1);
    let polled = future.poll(&consensus, got_bodies(2, vec![10, 8]));
    // The blocks came as 9, 10, 8.
    assert_eq!(ready_numbers(polled), vec![10, 9, 8]);
}

/// Downloads a chain with replies of at most `batch` headers. If `fail` is set, every second bodies
/// request fails.
fn download_chain(headers: &[SealedHeader], batch: usize, fail: bool) -> (Vec<u64>, usize) {
    let consensus = NumberConsensus::new(0);
    let mut future = start_range(headers[0].hash(), headers.len() as u64);
    let mut polled = future.poll(&consensus, RangeEvent::Start);
    let mut request = None;
    let mut hashes = Vec::new();
    let mut failed = false;
    let mut responses = 0;
    loop {
        assert_eq!(polled.reports, vec![]);
        request = polled.requests.headers.or(request);
        hashes = polled.requests.bodies.unwrap_or(hashes);
        let event = match polled.step {
            RangeStep::PollHeaders => {
                let HeadersRequest { start, limit, .. } = request.unwrap();
                let at = headers
                    .iter()
                    .position(|h| BlockHashOrNumber::Hash(h.hash()) == start)
                    .unwrap();
                let end = at + batch.min(limit as usize);
                got_headers(1, unsealed(&headers[at..end]))
            }
            RangeStep::PollBodies if fail && !failed => {
                failed = true;
                RangeEvent::Bodies(Poll::Ready(Err(RequestError::Timeout)))
            }
            RangeStep::PollBodies => {
                failed = false;
                let bodies = hashes
                    .iter()
                    .map(|hash| headers.iter().find(|h| h.hash() == *hash).unwrap().number())
                    .collect();
                got_bodies(2, bodies)
            }
            RangeStep::Ready(blocks) => {
                assert!(blocks.iter().all(|block| block.body == block.header.number()));
                let numbers = blocks.iter().map(|block| block.header.number()).collect();
                return (numbers, responses);
            }
            RangeStep::Pending => panic!("every request was answered"),
        };
        responses += 1;
        polled = future.poll(&consensus, event);
    }
}

#[test]
fn a_chain_is_downloaded_in_any_number_of_batches() {
    let headers = chain(300, 150);
    let expected: Vec<u64> = (151..301).rev().collect();
    for batch in [1, 2, 7, 64, 1000] {
        let (numbers, responses) = download_chain(&headers, batch, false);
        assert_eq!(numbers, expected);
        assert!(responses <= 2 * headers.len());
        let (numbers, _) = download_chain(&headers, batch, true);
        assert_eq!(numbers, expected);
    }
}

#[test]
fn a_poll_without_a_response_waits() {
    let consensus = NumberConsensus::new(0);
    let headers = chain(10, 2);
    let mut future = start_range(headers[0].hash(), 2);
    future.poll(&consensus, RangeEvent::Start);
    let polled = future.poll(&consensus, RangeEvent::Headers(Poll::Pending));
    assert!(matches!(polled.step, RangeStep::Pending));
    // A request in flight is not made twice.
    let polled = future.poll(&consensus, RangeEvent::Start);
    assert!(matches!(polled.step, RangeStep::PollHeaders));
    assert_eq!(polled.requests.headers, None);
    future.poll(&consensus, got_headers(1, unsealed(&headers[..1])));
    let polled = future.poll(&consensus, RangeEvent::Headers(Poll::Pending));
    assert!(matches!(polled.step, RangeStep::PollBodies));
    let polled = future.poll(&consensus, RangeEvent::Bodies(Poll::Pending));
    assert!(matches!(polled.step, RangeStep::Pending));
    assert_eq!(*future.start_hash(), headers[0].hash());
    assert_eq!(future.total_to_download(), 2);
}

#[test]
fn given_answers_decide_about_a_range() {
    let headers = chain(10, 2);
    let mut reports = Vec::new();
    let mut future = start_range(headers[0].hash(), 2);
    let rising = future.check_headers(unsealed(&headers)).unwrap();
    assert_eq!(rising, vec![headers[1].clone(), headers[0].clone()]);
    future.store_headers(peer(1), rising.clone(), false, &mut reports);
    assert_eq!(reports, vec![peer(1)]);
    assert_eq!(future.headers_downloaded(), 0);
    future.store_headers(peer(1), rising, true, &mut reports);
    assert_eq!(reports, vec![peer(1)]);
    assert_eq!(future.headers_downloaded(), 2);
    let requests = future.issue_new_requests();
    assert_eq!(requests.headers, None);
    assert_eq!(requests.bodies, Some(vec![headers[0].hash(), headers[1].hash()]));
    let bodies = WithPeerId::new(peer(2), vec![5, 6]);
    future.store_bodies(bodies, &vec![false, true], &mut reports);
    assert_eq!(reports, vec![peer(1), peer(2)]);
    assert_eq!(future.downloaded_blocks(), 1);
    assert_eq!(future.pending_headers(), 1);
    assert!(future.check_headers(unsealed(&headers)).is_none());
}

#[test]
fn sorting_is_by_number() {
    let headers = chain(9, 5);
    let mixed: Vec<SealedHeader> =
        [3, 0, 4, 1, 2].iter().map(|i: &usize| headers[*i].clone()).collect();
    let rising = sort_rising(mixed);
    let numbers: Vec<u64> = rising.iter().map(|h| h.number()).collect();
    assert_eq!(numbers, vec![5, 6, 7, 8, 9]);
    assert_eq!(reversed(rising), headers);
}

#[test]
fn test_consensus_refuses_only_when_told() {
    let headers = chain(3, 2);
    let mut consensus = TestConsensus::default();
    assert!(is_range_valid(&consensus, &headers));
    assert!(is_body_valid(&consensus, &1u64, &headers[0]));
    consensus.set_fail_validation(true);
    assert!(!is_range_valid(&consensus, &headers));
    assert!(is_range_valid(&consensus, &[]));
    assert!(!is_body_valid(&consensus, &1u64, &headers[0]));
}

#[test]
fn a_cloned_client_shares_the_consensus_rules() {
    let client = FullBlockClient::new(7u8, Arc::new(NumberConsensus::new(0)));
    let other = client.clone();
    assert_eq!(*other.client(), 7);
    assert!(Arc::ptr_eq(client.consensus(), other.consensus()));
}

#[test]
fn noop_client_answers_with_nothing() {
    let client = NoopFullBlockClient::<u64>::default().clone();
    client.report_bad_message(peer(1));
    assert_eq!(client.num_connected_peers(), 0);
    let request = headers_request(zero(), 3).unwrap();
    let headers = client.get_headers_with_priority(request, Priority::Normal).unwrap();
    assert_eq!(headers.data, vec![]);
    let bodies = client
        .get_block_bodies_with_priority_and_range_hint(vec![zero()], Priority::High, Some(1..=2))
        .unwrap();
    assert_eq!(bodies.data, vec![]);
    // The peers are drawn at random.
    assert_ne!(headers.peer_id, bodies.peer_id);
    assert_ne!(headers.peer_id, peer(0));
}

/// A client that keeps the requests for access lists.
struct AccessLists {
    requests: RefCell<Vec<(Vec<B256>, Priority)>>,
}

impl DownloadClient for AccessLists {
    fn report_bad_message(&self, _peer_id: PeerId) {}

    fn num_connected_peers(&self) -> usize {
        3
    }
}

impl BlockAccessListsClient for AccessLists {
    type Output = std::future::Ready<PeerRequestResult<BlockAccessLists>>;

    fn get_block_access_lists_with_priority(
        &self,
        hashes: Vec<B256>,
        priority: Priority,
    ) -> Self::Output {
        let lists = hashes.iter().map(|hash| vec![hash.bytes[0]]).collect();
        self.requests.borrow_mut().push((hashes, priority));
        std::future::ready(Ok(WithPeerId::new(peer(1), BlockAccessLists { lists })))
    }
}

#[test]
fn access_lists_are_requested_with_normal_priority() {
    let client = AccessLists { requests: RefCell::new(Vec::new()) };
    let hashes = vec![zero(), B256 { bytes: [5; 32] }];
    let response = client.get_block_access_lists(hashes.clone()).into_inner().unwrap();
    assert_eq!(response.data.lists, vec![vec![0], vec![5]]);
    (&client).get_block_access_lists(hashes.clone());
    assert_eq!(
        *client.requests.borrow(),
        vec![(hashes.clone(), Priority::Normal), (hashes.clone(), Priority::Normal)]
    );
    let shared = Arc::new(client);
    BlockAccessListsClient::get_block_access_lists_with_priority(
        &shared,
        hashes.clone(),
        Priority::High,
    );
    assert_eq!(shared.requests.borrow()[2], (hashes.clone(), Priority::High));
    assert_eq!(DownloadClient::num_connected_peers(&shared), 3);
    let boxed = Box::new(AccessLists { requests: RefCell::new(Vec::new()) });
    BlockAccessListsClient::get_block_access_lists(&boxed, hashes.clone());
    assert_eq!(*boxed.requests.borrow(), vec![(hashes, Priority::Normal)]);
}
