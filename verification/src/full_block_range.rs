//! Downloading a range of blocks in batches: while the bodies of one batch are on their way, the
//! headers of the next are requested.
use std::collections::VecDeque;

use vstd::prelude::*;

use crate::consensus::{is_body_valid, is_range_valid, Consensus, HeaderValidator};
use crate::order::{reversed, sort_rising};
use crate::primitives::{Header, PeerId, SealedBlock, SealedHeader, WithPeerId, B256};
use crate::request::{
    BlockHashOrNumber, HeadersDirection, HeadersRequest, PeerRequestResult, Poll,
};

verus! {

/// How many headers, or bodies, one request asks for at most.
pub const PIPELINE_BATCH_SIZE: u64 = 64;

/// What drives a poll of a range download.
#[derive(Debug)]
pub enum RangeEvent<B> {
    /// The poll starts.
    Start,
    /// The headers request in flight was polled.
    Headers(Poll<PeerRequestResult<Vec<Header>>>),
    /// The bodies request in flight was polled.
    Bodies(Poll<PeerRequestResult<Vec<B>>>),
}

/// How a poll of a range download goes on.
#[derive(Debug)]
pub enum RangeStep<B> {
    /// Poll the headers request next.
    PollHeaders,
    /// Poll the bodies request next.
    PollBodies,
    /// The download is done.
    Ready(Vec<SealedBlock<B>>),
    /// The download waits for its requests.
    Pending,
}

/// The mathematical value of a [`RangeStep`].
pub enum RangeStepView<B> {
    /// Poll the headers request next.
    PollHeaders,
    /// Poll the bodies request next.
    PollBodies,
    /// The download is done.
    Ready(Seq<SealedBlock<B>>),
    /// The download waits for its requests.
    Pending,
}

impl<B> View for RangeStep<B> {
    type V = RangeStepView<B>;

    open spec fn view(&self) -> RangeStepView<B> {
        match self {
            RangeStep::PollHeaders => RangeStepView::PollHeaders,
            RangeStep::PollBodies => RangeStepView::PollBodies,
            RangeStep::Ready(blocks) => RangeStepView::Ready(blocks@),
            RangeStep::Pending => RangeStepView::Pending,
        }
    }
}

/// The requests that a range download makes of the client.
#[derive(Debug)]
pub struct NewRequests {
    /// A request for headers.
    pub headers: Option<HeadersRequest>,
    /// A request for the bodies of the blocks with these hashes, in this order.
    pub bodies: Option<Vec<B256>>,
}

/// The mathematical value of [`NewRequests`].
pub struct NewRequestsView {
    /// A request for headers.
    pub headers: Option<HeadersRequest>,
    /// A request for the bodies of the blocks with these hashes, in this order.
    pub bodies: Option<Seq<B256>>,
}

impl View for NewRequests {
    type V = NewRequestsView;

    open spec fn view(&self) -> NewRequestsView {
        NewRequestsView {
            headers: self.headers,
            bodies: match self.bodies {
                Some(hashes) => Some(hashes@),
                None => None,
            },
        }
    }
}

/// The state of a range download.
pub struct RangeState<B> {
    /// How many blocks are requested.
    pub total_to_download: u64,
    /// The hash of the block that the range starts with.
    pub start_hash: B256,
    /// The number of the block that the range starts with, once its header is there.
    pub start_number: u64,
    /// Whether a headers request is in flight.
    pub headers_request: bool,
    /// The hash that the next headers request starts with.
    pub next_request_hash: B256,
    /// How many headers have been downloaded and validated.
    pub headers_downloaded: u64,
    /// The headers that were validated, but whose bodies have not yet been requested.
    pub pending_headers: Seq<SealedHeader>,
    /// Whether a bodies request is in flight.
    pub bodies_request: bool,
    /// The headers whose bodies are requested, in the order of the request.
    pub in_flight_bodies: Seq<SealedHeader>,
    /// The blocks that are complete.
    pub downloaded_blocks: Seq<SealedBlock<B>>,
    /// Whether a response came in the round of the poll that is under way.
    pub progress: bool,
}

/// A range download after an event, and what the event led to.
pub struct RangeOutcome<B> {
    /// The download.
    pub state: RangeState<B>,
    /// The peers that sent bad messages, to be reported.
    pub reports: Seq<PeerId>,
    /// The requests to make.
    pub requests: NewRequestsView,
    /// How the poll goes on.
    pub step: RangeStepView<B>,
}

/// No request is made.
pub open spec fn no_requests() -> NewRequestsView {
    NewRequestsView { headers: None, bodies: None }
}

/// The headers whose bodies were refused, in order.
pub open spec fn refused(headers: Seq<SealedHeader>, valid: Seq<bool>) -> Seq<SealedHeader>
    decreases headers.len(),
{
    if headers.len() == 0 {
        Seq::empty()
    } else {
        let before = refused(headers.drop_last(), valid);
        if valid[headers.len() - 1] {
            before
        } else {
            before.push(headers.last())
        }
    }
}

/// The blocks whose bodies were accepted, in order.
pub open spec fn assembled<B>(
    headers: Seq<SealedHeader>,
    bodies: Seq<B>,
    valid: Seq<bool>,
) -> Seq<SealedBlock<B>>
    decreases headers.len(),
{
    if headers.len() == 0 {
        Seq::empty()
    } else {
        let before = assembled(headers.drop_last(), bodies, valid);
        if valid[headers.len() - 1] {
            before.push(SealedBlock { header: headers.last(), body: bodies[headers.len() - 1] })
        } else {
            before
        }
    }
}

/// The headers, each sealed with its own hash.
pub open spec fn all_sealed(headers: Seq<Header>) -> Seq<SealedHeader> {
    headers.map_values(|header: Header| crate::primitives::sealed(header))
}

/// One peer, reported a number of times.
pub open spec fn repeated(peer_id: PeerId, times: nat) -> Seq<PeerId> {
    Seq::new(times, |i: int| peer_id)
}

impl<B> RangeState<B> {
    /// The download of `count` blocks, as it starts.
    pub open spec fn start(hash: B256, count: u64) -> RangeState<B> {
        RangeState {
            total_to_download: count,
            start_hash: hash,
            start_number: 0,
            headers_request: false,
            next_request_hash: hash,
            headers_downloaded: 0,
            pending_headers: Seq::empty(),
            bodies_request: false,
            in_flight_bodies: Seq::empty(),
            downloaded_blocks: Seq::empty(),
            progress: false,
        }
    }

    /// How many headers are still missing.
    pub open spec fn missing_headers(self) -> int {
        self.total_to_download - self.headers_downloaded
    }

    /// All requested blocks have been downloaded.
    pub open spec fn is_complete(self) -> bool {
        self.downloaded_blocks.len() >= self.total_to_download
    }

    /// The blocks have been handed out.
    pub open spec fn is_finished(self) -> bool {
        &&& self.total_to_download > 0
        &&& self.headers_downloaded == self.total_to_download
        &&& self.pending_headers.len() == 0
        &&& self.in_flight_bodies.len() == 0
        &&& self.downloaded_blocks.len() == 0
    }

    /// The download has this header: its body is missing, requested or there.
    pub open spec fn has_header(self, header: SealedHeader) -> bool {
        ||| self.pending_headers.contains(header)
        ||| self.in_flight_bodies.contains(header)
        ||| exists|i: int|
            0 <= i < self.downloaded_blocks.len() && (
            #[trigger] self.downloaded_blocks[i]).header == header
    }

    /// A header may stand in the range: it is sealed, and only the starting header has as high a
    /// number as the starting header.
    pub open spec fn fits_range(self, header: SealedHeader) -> bool {
        &&& header.is_sealed()
        &&& header.header.number <= self.start_number
        &&& header.header.number == self.start_number ==> header.hash == self.start_hash
    }

    /// What holds of every range download.
    pub open spec fn wf(self) -> bool {
        &&& self.headers_downloaded <= self.total_to_download
        &&& self.headers_request ==> self.headers_downloaded < self.total_to_download
        &&& self.bodies_request <==> self.in_flight_bodies.len() > 0
        &&& self.in_flight_bodies.len() <= PIPELINE_BATCH_SIZE
        &&& self.headers_downloaded == 0 ==> self.next_request_hash == self.start_hash
        &&& self.is_finished() || self.headers_downloaded == self.pending_headers.len()
            + self.in_flight_bodies.len() + self.downloaded_blocks.len()
        &&& forall|header: SealedHeader| #[trigger]
            self.has_header(header) ==> self.fits_range(header)
        &&& self.headers_downloaded > 0 && !self.is_finished() ==> exists|header: SealedHeader|
            self.has_header(header) && header.header.number == self.start_number
    }

    /// A poll starts at any time; a request is polled while it is in flight.
    pub open spec fn accepts(self, event: RangeEvent<B>) -> bool {
        match event {
            RangeEvent::Start => true,
            RangeEvent::Headers(_) => self.headers_request,
            RangeEvent::Bodies(_) => self.bodies_request,
        }
    }

    /// The request for the next batch of headers.
    pub open spec fn next_headers(self) -> HeadersRequest {
        HeadersRequest {
            start: BlockHashOrNumber::Hash(self.next_request_hash),
            limit: if self.missing_headers() < PIPELINE_BATCH_SIZE {
                self.missing_headers() as u64
            } else {
                PIPELINE_BATCH_SIZE
            },
            direction: HeadersDirection::Falling,
        }
    }

    /// How many bodies the next bodies request asks for.
    pub open spec fn body_batch(self) -> int {
        if self.pending_headers.len() < PIPELINE_BATCH_SIZE {
            self.pending_headers.len() as int
        } else {
            PIPELINE_BATCH_SIZE as int
        }
    }

    /// The requests for which the pipeline has capacity: headers, if none are requested and some
    /// are missing, and bodies, if none are requested and there are headers to request them for.
    pub open spec fn new_requests(self) -> NewRequestsView {
        NewRequestsView {
            headers: if !self.headers_request && self.missing_headers() > 0 {
                Some(self.next_headers())
            } else {
                None
            },
            bodies: if !self.bodies_request && self.pending_headers.len() > 0 {
                Some(
                    self.pending_headers.take(self.body_batch()).map_values(
                        |header: SealedHeader| header.hash,
                    ),
                )
            } else {
                None
            },
        }
    }

    /// The download with those requests in flight.
    pub open spec fn with_new_requests(self) -> RangeState<B> {
        let bodies = self.new_requests().bodies is Some;
        RangeState {
            headers_request: self.headers_request || self.new_requests().headers is Some,
            bodies_request: self.bodies_request || bodies,
            in_flight_bodies: if bodies {
                self.in_flight_bodies + self.pending_headers.take(self.body_batch())
            } else {
                self.in_flight_bodies
            },
            pending_headers: if bodies {
                self.pending_headers.skip(self.body_batch())
            } else {
                self.pending_headers
            },
            ..self
        }
    }

    /// The first response must begin with the starting header.
    pub open spec fn starts_right(self, headers: Seq<SealedHeader>) -> bool {
        self.headers_downloaded == 0 ==> headers.len() > 0 && headers[0].hash == self.start_hash
    }

    /// The download with the number of the starting header noted, which is the first of the
    /// first response.
    pub open spec fn with_start(self, headers: Seq<SealedHeader>) -> RangeState<B> {
        RangeState {
            start_number: if self.headers_downloaded == 0 {
                headers[0].header.number
            } else {
                self.start_number
            },
            ..self
        }
    }

    /// The headers can belong to the range: they begin with the starting header if they come
    /// first, they are no more than are missing, and each may stand in the range.
    pub open spec fn can_take(self, headers: Seq<SealedHeader>) -> bool {
        &&& self.starts_right(headers)
        &&& headers.len() <= self.missing_headers()
        &&& forall|i: int|
            0 <= i < headers.len() ==> self.with_start(headers).fits_range(#[trigger] headers[i])
    }

    /// The headers of a response in falling order, if they can belong to the range.
    pub open spec fn candidate(self, headers: Seq<Header>) -> Option<Seq<SealedHeader>> {
        if self.can_take(all_sealed(headers)) {
            Some(crate::order::falling(all_sealed(headers)))
        } else {
            None
        }
    }

    /// The download with validated headers, which come in falling order. The next request goes on
    /// with the parent of the lowest.
    pub open spec fn with_headers(self, headers: Seq<SealedHeader>) -> RangeState<B> {
        RangeState {
            next_request_hash: if headers.len() > 0 {
                headers.last().header.parent_hash
            } else {
                self.next_request_hash
            },
            headers_downloaded: (self.headers_downloaded + headers.len()) as u64,
            pending_headers: self.pending_headers + headers,
            ..self.with_start(headers)
        }
    }

    /// The download after the headers request was answered, and the peers to report. Headers that
    /// cannot belong to the range, or that the consensus rules refuse, are dropped and their peer
    /// reported.
    pub open spec fn on_headers_response(
        self,
        response: WithPeerId<Vec<Header>>,
        valid: bool,
    ) -> (RangeState<B>, Seq<PeerId>) {
        let answered = RangeState { headers_request: false, ..self };
        match self.candidate(response.data@) {
            Some(headers) if valid => (answered.with_headers(headers), Seq::empty()),
            _ => (answered, seq![response.peer_id]),
        }
    }

    /// The download with the headers whose bodies were requested queued for a new request.
    pub open spec fn requeued(self) -> RangeState<B> {
        RangeState {
            bodies_request: false,
            pending_headers: self.pending_headers + self.in_flight_bodies,
            in_flight_bodies: Seq::empty(),
            ..self
        }
    }

    /// The download after the bodies request was answered, and the peers to report. `valid` holds
    /// the answer of the consensus rules to each body, which belongs to the header at its place.
    /// A response of the wrong length is dropped, and so is every refused body; their headers are
    /// queued again.
    pub open spec fn on_bodies_response(
        self,
        response: WithPeerId<Vec<B>>,
        valid: Seq<bool>,
    ) -> (RangeState<B>, Seq<PeerId>) {
        if response.data@.len() != self.in_flight_bodies.len() {
            (self.requeued(), seq![response.peer_id])
        } else {
            let again = refused(self.in_flight_bodies, valid);
            (
                RangeState {
                    bodies_request: false,
                    pending_headers: self.pending_headers + again,
                    in_flight_bodies: Seq::empty(),
                    downloaded_blocks: self.downloaded_blocks + assembled(
                        self.in_flight_bodies,
                        response.data@,
                        valid,
                    ),
                    ..self
                },
                repeated(response.peer_id, again.len()),
            )
        }
    }

    /// A round of a poll starts: if the download is complete, the blocks are handed out in
    /// falling order, else new requests are made, and the requests in flight are polled.
    pub open spec fn round(self, reports: Seq<PeerId>) -> RangeOutcome<B> {
        if self.is_complete() {
            RangeOutcome {
                state: RangeState { downloaded_blocks: Seq::empty(), ..self },
                reports,
                requests: no_requests(),
                step: RangeStepView::Ready(crate::order::falling(self.downloaded_blocks)),
            }
        } else {
            let issued = self.with_new_requests();
            RangeOutcome {
                state: RangeState { progress: false, ..issued },
                reports,
                requests: self.new_requests(),
                step: if issued.headers_request {
                    RangeStepView::PollHeaders
                } else if issued.bodies_request {
                    RangeStepView::PollBodies
                } else {
                    RangeStepView::Pending
                },
            }
        }
    }

    /// A round of a poll ends: the next starts if a response came in this one.
    pub open spec fn end_round(self, reports: Seq<PeerId>) -> RangeOutcome<B> {
        if self.progress {
            self.round(reports)
        } else {
            RangeOutcome {
                state: self,
                reports,
                requests: no_requests(),
                step: RangeStepView::Pending,
            }
        }
    }

    /// A round of a poll goes on with the bodies request, if that is in flight.
    pub open spec fn then_bodies(self, reports: Seq<PeerId>) -> RangeOutcome<B> {
        if self.bodies_request {
            RangeOutcome {
                state: self,
                reports,
                requests: no_requests(),
                step: RangeStepView::PollBodies,
            }
        } else {
            self.end_round(reports)
        }
    }

    /// The download after an event, and what the event led to. `range_valid` is the answer of the
    /// consensus rules to the headers of the event, if they are asked, and `valid` holds their
    /// answers to its bodies.
    pub open spec fn after(
        self,
        event: RangeEvent<B>,
        range_valid: bool,
        valid: Seq<bool>,
    ) -> RangeOutcome<B> {
        match event {
            RangeEvent::Start => self.round(Seq::empty()),
            RangeEvent::Headers(Poll::Pending) => self.then_bodies(Seq::empty()),
            RangeEvent::Headers(Poll::Ready(Ok(response))) => {
                let (answered, reports) = self.on_headers_response(response, range_valid);
                RangeState { progress: true, ..answered }.then_bodies(reports)
            },
            RangeEvent::Headers(Poll::Ready(Err(_))) => RangeState {
                headers_request: false,
                progress: true,
                ..self
            }.then_bodies(Seq::empty()),
            RangeEvent::Bodies(Poll::Pending) => self.end_round(Seq::empty()),
            RangeEvent::Bodies(Poll::Ready(Ok(response))) => {
                let (answered, reports) = self.on_bodies_response(response, valid);
                RangeState { progress: true, ..answered }.end_round(reports)
            },
            RangeEvent::Bodies(Poll::Ready(Err(_))) => RangeState {
                progress: true,
                ..self.requeued()
            }.end_round(Seq::empty()),
        }
    }
}

/// If there are headers, in falling order, `consensus` can answer `valid` to them.
pub open spec fn judges_headers<C: HeaderValidator>(
    consensus: &C,
    headers: Option<Seq<SealedHeader>>,
    valid: bool,
) -> bool {
    match headers {
        Some(headers) => crate::consensus::range_verdict(consensus, headers.reverse(), valid),
        None => true,
    }
}

/// If there is a body for each header, `consensus` can answer `valid[i]` to the i-th body and
/// header.
pub open spec fn judges_bodies<B, C: Consensus<B>>(
    consensus: &C,
    headers: Seq<SealedHeader>,
    bodies: Seq<B>,
    valid: Seq<bool>,
) -> bool {
    headers.len() == bodies.len() ==> {
        &&& valid.len() == headers.len()
        &&& forall|i: int|
            0 <= i < valid.len() ==> crate::consensus::body_verdict(
                consensus,
                &bodies[i],
                &headers[i],
                #[trigger] valid[i],
            )
    }
}

/// The answers are ones that `consensus` can give to what an event makes the download ask.
pub open spec fn judges_event<B, C: Consensus<B>>(
    consensus: &C,
    state: RangeState<B>,
    event: RangeEvent<B>,
    range_valid: bool,
    valid: Seq<bool>,
) -> bool {
    match event {
        RangeEvent::Headers(Poll::Ready(Ok(response))) => judges_headers(
            consensus,
            state.candidate(response.data@),
            range_valid,
        ),
        RangeEvent::Bodies(Poll::Ready(Ok(response))) => judges_bodies(
            consensus,
            state.in_flight_bodies,
            response.data@,
            valid,
        ),
        _ => true,
    }
}

/// The download of a range of full blocks from the network, with a pipeline.
///
/// Headers and bodies are requested in concurrent batches, to wait for the network as little as
/// possible. The blocks are yielded with falling block numbers.
///
/// The download does no input or output of its own. What it needs of the network client it
/// returns, and it is told of the responses by [`Self::poll`].
#[must_use]
#[derive(Debug)]
pub struct FetchFullBlockRangeFuture<B> {
    total_to_download: u64,
    start_hash: B256,
    start_number: u64,
    headers_request: bool,
    next_request_hash: B256,
    headers_downloaded: u64,
    pending_headers: VecDeque<SealedHeader>,
    bodies_request: bool,
    in_flight_bodies: VecDeque<SealedHeader>,
    downloaded_blocks: Vec<SealedBlock<B>>,
    progress: bool,
}

/// What a poll of a range download led to.
#[derive(Debug)]
pub struct RangePoll<B> {
    /// The peers that sent bad messages, to be reported in this order.
    pub reports: Vec<PeerId>,
    /// The requests to make.
    pub requests: NewRequests,
    /// How the poll goes on.
    pub step: RangeStep<B>,
}

impl<B> RangePoll<B> {
    /// What the poll led to, with the download as it is left.
    pub open spec fn outcome(self, state: RangeState<B>) -> RangeOutcome<B> {
        RangeOutcome {
            state,
            reports: self.reports@,
            requests: self.requests@,
            step: self.step@,
        }
    }
}

impl<B> View for FetchFullBlockRangeFuture<B> {
    type V = RangeState<B>;

    closed spec fn view(&self) -> RangeState<B> {
        RangeState {
            total_to_download: self.total_to_download,
            start_hash: self.start_hash,
            start_number: self.start_number,
            headers_request: self.headers_request,
            next_request_hash: self.next_request_hash,
            headers_downloaded: self.headers_downloaded,
            pending_headers: self.pending_headers@,
            bodies_request: self.bodies_request,
            in_flight_bodies: self.in_flight_bodies@,
            downloaded_blocks: self.downloaded_blocks@,
            progress: self.progress,
        }
    }
}

/// Seals each header with its own hash.
fn seal_all(headers: Vec<Header>) -> (sealed_headers: Vec<SealedHeader>)
    ensures
        sealed_headers@ == all_sealed(headers@),
{
    let ghost input = headers@;
    let mut rest = reversed(headers);
    let mut sealed_headers: Vec<SealedHeader> = Vec::new();
    while rest.len() > 0
        invariant
            rest@.len() + sealed_headers@.len() == input.len(),
            rest@ == input.skip(sealed_headers@.len() as int).reverse(),
            sealed_headers@ == all_sealed(input).take(sealed_headers@.len() as int),
        decreases rest@.len(),
    {
        let ghost done = sealed_headers@.len() as int;
        let header = rest.pop().unwrap();
        assert(header == input[done]);
        sealed_headers.push(SealedHeader::seal_slow(header));
        assert(rest@ =~= input.skip(done + 1).reverse());
        assert(sealed_headers@ =~= all_sealed(input).take(done + 1));
    }
    assert(all_sealed(input).take(input.len() as int) =~= all_sealed(input));
    sealed_headers
}

impl<B> FetchFullBlockRangeFuture<B> {
    /// Creates a new download of `count` blocks, starting with the block with a hash.
    pub(crate) fn new(hash: B256, count: u64) -> (future: FetchFullBlockRangeFuture<B>)
        ensures
            future@ == RangeState::<B>::start(hash, count),
            future@.wf(),
    {
        let future = FetchFullBlockRangeFuture {
            total_to_download: count,
            start_hash: hash,
            start_number: 0,
            headers_request: false,
            next_request_hash: hash,
            headers_downloaded: 0,
            pending_headers: VecDeque::with_capacity(PIPELINE_BATCH_SIZE as usize),
            bodies_request: false,
            in_flight_bodies: VecDeque::with_capacity(PIPELINE_BATCH_SIZE as usize),
            downloaded_blocks: Vec::new(),
            progress: false,
        };
        assert(future@ == RangeState::<B>::start(hash, count));
        future
    }

    /// Returns the hash of the block that the range starts with.
    pub fn start_hash(&self) -> (value: &B256)
        ensures
            *value == self@.start_hash,
    {
        &self.start_hash
    }

    /// Returns how many blocks are requested.
    pub fn total_to_download(&self) -> (value: u64)
        ensures
            value == self@.total_to_download,
    {
        self.total_to_download
    }

    /// Returns how many headers have been downloaded and validated.
    pub fn headers_downloaded(&self) -> (value: u64)
        ensures
            value == self@.headers_downloaded,
    {
        self.headers_downloaded
    }

    /// Returns how many headers wait for their bodies to be requested.
    pub fn pending_headers(&self) -> (value: usize)
        ensures
            value == self@.pending_headers.len(),
    {
        self.pending_headers.len()
    }

    /// Returns how many bodies are requested.
    pub fn in_flight_bodies(&self) -> (value: usize)
        ensures
            value == self@.in_flight_bodies.len(),
    {
        self.in_flight_bodies.len()
    }

    /// Returns how many blocks are complete.
    pub fn downloaded_blocks(&self) -> (value: usize)
        ensures
            value == self@.downloaded_blocks.len(),
    {
        self.downloaded_blocks.len()
    }

    /// Returns whether all the requested blocks have been downloaded.
    pub fn is_complete(&self) -> (complete: bool)
        ensures
            complete == self@.is_complete(),
            complete <==> self@.downloaded_blocks.len() >= self@.total_to_download,
    {
        self.downloaded_blocks.len() as u64 >= self.total_to_download
    }

    /// Makes new header or body requests if the pipeline has capacity.
    pub fn issue_new_requests(&mut self) -> (requests: NewRequests)
        requires
            old(self)@.wf(),
        ensures
            requests@ == old(self)@.new_requests(),
            final(self)@ == old(self)@.with_new_requests(),
            final(self)@.wf(),
    {
        let ghost before = self@;
        proof {
            crate::full_block_range_laws::lemma_requests_keep_headers(before);
        }
        // Request headers if no request is in flight and more headers are needed.
        let mut headers: Option<HeadersRequest> = None;
        if !self.headers_request && self.headers_downloaded < self.total_to_download {
            let remaining: u64 = self.total_to_download - self.headers_downloaded;
            let limit: u64 = if remaining < PIPELINE_BATCH_SIZE {
                remaining
            } else {
                PIPELINE_BATCH_SIZE
            };
            headers = Some(
                HeadersRequest {
                    start: BlockHashOrNumber::Hash(self.next_request_hash),
                    limit,
                    direction: HeadersDirection::Falling,
                },
            );
            self.headers_request = true;
        }
        // Request bodies if no request is in flight and there are pending headers.
        let mut bodies: Option<Vec<B256>> = None;
        if !self.bodies_request && self.pending_headers.len() > 0 {
            let batch_size: usize = if self.pending_headers.len() < PIPELINE_BATCH_SIZE as usize {
                self.pending_headers.len()
            } else {
                PIPELINE_BATCH_SIZE as usize
            };
            let mut batch = self.pending_headers.split_off(batch_size);
            core::mem::swap(&mut batch, &mut self.pending_headers);
            let mut hashes: Vec<B256> = Vec::new();
            let mut i: usize = 0;
            while i < batch.len()
                invariant
                    i <= batch@.len(),
                    hashes@ == batch@.take(i as int).map_values(
                        |header: SealedHeader| header.hash,
                    ),
                decreases batch@.len() - i,
            {
                hashes.push(batch[i].hash());
                i += 1;
                assert(hashes@ =~= batch@.take(i as int).map_values(
                    |header: SealedHeader| header.hash,
                ));
            }
            assert(batch@.take(batch@.len() as int) =~= batch@);
            self.in_flight_bodies.append(&mut batch);
            self.bodies_request = true;
            bodies = Some(hashes);
        }
        assert(self@ == before.with_new_requests());
        NewRequests { headers, bodies }
    }

    /// Seals the headers of a response and puts them into rising order, if they can belong to the
    /// range.
    pub fn check_headers(&self, headers: Vec<Header>) -> (rising: Option<Vec<SealedHeader>>)
        requires
            self@.wf(),
        ensures
            match rising {
                Some(rising) => self@.candidate(headers@) == Some(rising@.reverse()),
                None => self@.candidate(headers@) is None,
            },
    {
        let sealed_headers = seal_all(headers);
        let ghost all = all_sealed(headers@);
        // There are no more headers to come than are missing.
        if sealed_headers.len() as u64 > self.total_to_download - self.headers_downloaded {
            return None;
        }
        let mut start_number: u64 = self.start_number;
        if self.headers_downloaded == 0 {
            // The first response must contain the start hash.
            if sealed_headers.len() == 0 || sealed_headers[0].hash() != self.start_hash {
                return None;
            }
            start_number = sealed_headers[0].number();
        }
        // Nothing else may stand as high as the starting header.
        let mut i: usize = 0;
        while i < sealed_headers.len()
            invariant
                i <= sealed_headers@.len(),
                sealed_headers@ == all,
                all == all_sealed(headers@),
                start_number == self@.with_start(all).start_number,
                self@.with_start(all).start_hash == self.start_hash,
                forall|j: int|
                    0 <= j < i ==> self@.with_start(all).fits_range(#[trigger] sealed_headers@[j]),
            decreases sealed_headers@.len() - i,
        {
            let number = sealed_headers[i].number();
            assert(sealed_headers@[i as int] == crate::primitives::sealed(headers@[i as int]));
            if number > start_number || (number == start_number && sealed_headers[i].hash()
                != self.start_hash) {
                assert(!self@.with_start(all).fits_range(all[i as int]));
                return None;
            }
            i += 1;
        }
        let rising = sort_rising(sealed_headers);
        assert(rising@.reverse() =~= crate::order::falling(all));
        Some(rising)
    }

    /// Stores headers in rising order that can belong to the range, given whether they are valid.
    /// The headers request is done.
    pub fn store_headers(
        &mut self,
        peer_id: PeerId,
        rising: Vec<SealedHeader>,
        valid: bool,
        reports: &mut Vec<PeerId>,
    )
        requires
            old(self)@.wf(),
            old(self)@.can_take(rising@.reverse()),
        ensures
            valid ==> final(self)@ == (RangeState { headers_request: false, ..old(self)@ }).with_headers(
                rising@.reverse(),
            ) && final(reports)@ == old(reports)@,
            !valid ==> final(self)@ == (RangeState { headers_request: false, ..old(self)@ })
                && final(reports)@ == old(reports)@.push(peer_id),
            final(self)@.wf(),
    {
        let ghost before = self@;
        let ghost falling = rising@.reverse();
        proof {
            crate::full_block_range_laws::lemma_headers_keep_headers(before, falling);
            crate::full_block_range_laws::lemma_set_progress(before, false, before.progress);
        }
        self.headers_request = false;
        if !valid {
            // Leave the rest as it is, the headers are requested again.
            reports.push(peer_id);
            return ;
        }
        if rising.len() > 0 {
            assert(falling.last() == rising@[0]);
            self.next_request_hash = rising[0].parent_hash();
            if self.headers_downloaded == 0 {
                assert(falling[0] == rising@[rising@.len() - 1]);
                self.start_number = rising[rising.len() - 1].number();
            }
        }
        self.headers_downloaded = self.headers_downloaded + rising.len() as u64;
        let ghost pending = self.pending_headers@;
        let mut rest = rising;
        while rest.len() > 0
            invariant
                rest@.len() <= falling.len(),
                rest@ == falling.skip(falling.len() - rest@.len()).reverse(),
                self.pending_headers@ == pending + falling.take(falling.len() - rest@.len()),
                self@ == (RangeState {
                    pending_headers: self.pending_headers@,
                    ..(RangeState { headers_request: false, ..before }).with_headers(falling)
                }),
            decreases rest@.len(),
        {
            let ghost done = falling.len() - rest@.len();
            let header = rest.pop().unwrap();
            assert(header == falling[done]);
            self.pending_headers.push_back(header);
            assert(rest@ =~= falling.skip(done + 1).reverse());
            assert(self.pending_headers@ =~= pending + falling.take(done + 1));
        }
        assert(self@.pending_headers =~= pending + falling);
    }

    /// Handles a response to the headers request.
    pub fn on_headers_response<C: HeaderValidator>(
        &mut self,
        consensus: &C,
        response: WithPeerId<Vec<Header>>,
        reports: &mut Vec<PeerId>,
    )
        requires
            old(self)@.wf(),
        ensures
            exists|valid: bool|
                {
                    &&& #[trigger] judges_headers(
                        consensus,
                        old(self)@.candidate(response.data@),
                        valid,
                    )
                    &&& final(self)@ == old(self)@.on_headers_response(response, valid).0
                    &&& final(reports)@ == old(reports)@ + old(self)@.on_headers_response(
                        response,
                        valid,
                    ).1
                },
            final(self)@.wf(),
            // Headers are taken in only after the consensus rules returned `Ok` for them.
            final(reports)@ == old(reports)@ || final(reports)@ == old(reports)@.push(
                response.peer_id,
            ),
            final(reports)@ == old(reports)@ ==> exists|
                rising: &[SealedHeader],
                result: Result<(), C::Error>,
            | #[trigger]
                call_ensures(C::validate_header_range, (consensus, rising), result) && result is Ok
                    && final(self)@.pending_headers == old(self)@.pending_headers
                    + rising@.reverse() && final(self)@.headers_downloaded
                    == old(self)@.headers_downloaded + rising@.len(),
            final(reports)@ != old(reports)@ ==> final(self)@.pending_headers
                == old(self)@.pending_headers && final(self)@.headers_downloaded
                == old(self)@.headers_downloaded,
    {
        let ghost before = self@;
        let ghost reported = reports@;
        let (peer_id, headers) = response.split();
        match self.check_headers(headers) {
            Some(rising) => {
                proof {
                    crate::full_block_range_laws::law_sorting_keeps_the_start(
                        before,
                        all_sealed(headers@),
                    );
                    assert(rising@.reverse().reverse() =~= rising@);
                }
                let valid: bool = is_range_valid(consensus, rising.as_slice());
                self.store_headers(peer_id, rising, valid, reports);
                proof {
                    assert(judges_headers(consensus, before.candidate(response.data@), valid));
                    assert(reports@ =~= reported + before.on_headers_response(response, valid).1);
                    crate::full_block_range_outcomes::law_headers_need_an_ok(
                        consensus,
                        before,
                        response,
                        valid,
                    );
                }
            },
            None => {
                proof {
                    crate::full_block_range_laws::lemma_set_progress(before, false, before.progress);
                    assert(judges_headers(consensus, before.candidate(response.data@), true));
                }
                self.headers_request = false;
                reports.push(peer_id);
                assert(reports@ =~= reported + before.on_headers_response(response, true).1);
            },
        }
    }

    /// Queues the headers whose bodies were requested for a new request. The bodies request is
    /// done.
    pub fn requeue_bodies(&mut self)
        requires
            old(self)@.wf(),
        ensures
            final(self)@ == old(self)@.requeued(),
            final(self)@.wf(),
    {
        proof {
            crate::full_block_range_laws::lemma_requeueing_keeps_headers(self@);
        }
        self.bodies_request = false;
        self.pending_headers.append(&mut self.in_flight_bodies);
        assert(self@ == old(self)@.requeued());
    }

    /// Stores the bodies of a response, given for each whether it belongs to the header at its
    /// place. The bodies request is done.
    pub fn store_bodies(
        &mut self,
        response: WithPeerId<Vec<B>>,
        valid: &Vec<bool>,
        reports: &mut Vec<PeerId>,
    )
        requires
            old(self)@.wf(),
            response.data@.len() == old(self)@.in_flight_bodies.len() ==> valid@.len()
                == response.data@.len(),
        ensures
            final(self)@ == old(self)@.on_bodies_response(response, valid@).0,
            final(reports)@ == old(reports)@ + old(self)@.on_bodies_response(response, valid@).1,
            final(self)@.wf(),
    {
        let ghost before = self@;
        let ghost reported = reports@;
        proof {
            crate::full_block_range_laws::lemma_bodies_keep_headers(before, response, valid@);
        }
        let (peer_id, bodies) = response.split();
        // The bodies are taken to come in the order in which they were requested.
        if bodies.len() != self.in_flight_bodies.len() {
            reports.push(peer_id);
            self.requeue_bodies();
            assert(reports@ =~= reported + seq![peer_id]);
            return ;
        }
        self.bodies_request = false;
        let ghost flight = before.in_flight_bodies;
        let ghost input = bodies@;
        let mut rest = reversed(bodies);
        let mut i: usize = 0;
        assert(flight.take(0) =~= Seq::empty());
        while i < valid.len()
            invariant
                valid@.len() == flight.len() == input.len(),
                flight == before.in_flight_bodies,
                i + rest@.len() == flight.len(),
                rest@ == input.skip(i as int).reverse(),
                self.in_flight_bodies@ == flight.skip(i as int),
                self.pending_headers@ == before.pending_headers + refused(
                    flight.take(i as int),
                    valid@,
                ),
                self.downloaded_blocks@ == before.downloaded_blocks + assembled(
                    flight.take(i as int),
                    input,
                    valid@,
                ),
                reports@ == reported + repeated(
                    peer_id,
                    refused(flight.take(i as int), valid@).len(),
                ),
                self@ == (RangeState {
                    bodies_request: false,
                    pending_headers: self.pending_headers@,
                    in_flight_bodies: self.in_flight_bodies@,
                    downloaded_blocks: self.downloaded_blocks@,
                    ..before
                }),
            decreases valid@.len() - i,
        {
            let header = self.in_flight_bodies.pop_front().unwrap();
            let body = rest.pop().unwrap();
            proof {
                assert(header == flight[i as int]);
                assert(body == input[i as int]);
                assert(flight.take(i + 1).drop_last() =~= flight.take(i as int));
                assert(self.in_flight_bodies@ =~= flight.skip(i + 1));
                assert(rest@ =~= input.skip(i + 1).reverse());
            }
            if valid[i] {
                self.downloaded_blocks.push(SealedBlock::from_sealed_parts(header, body));
                assert(self.downloaded_blocks@ =~= before.downloaded_blocks + assembled(
                    flight.take(i + 1),
                    input,
                    valid@,
                ));
            } else {
                reports.push(peer_id);
                // Queue this header for another attempt.
                self.pending_headers.push_back(header);
                assert(self.pending_headers@ =~= before.pending_headers + refused(
                    flight.take(i + 1),
                    valid@,
                ));
                assert(reports@ =~= reported + repeated(
                    peer_id,
                    refused(flight.take(i + 1), valid@).len(),
                ));
            }
            i += 1;
        }
        proof {
            assert(flight.take(flight.len() as int) =~= flight);
            assert(self.in_flight_bodies@ =~= Seq::empty());
            assert(self@ == before.on_bodies_response(response, valid@).0);
        }
    }

    /// Handles a response to the bodies request.
    pub fn on_bodies_response<C: Consensus<B>>(
        &mut self,
        consensus: &C,
        response: WithPeerId<Vec<B>>,
        reports: &mut Vec<PeerId>,
    )
        requires
            old(self)@.wf(),
        ensures
            exists|valid: Seq<bool>|
                {
                    &&& #[trigger] judges_bodies(
                        consensus,
                        old(self)@.in_flight_bodies,
                        response.data@,
                        valid,
                    )
                    &&& final(self)@ == old(self)@.on_bodies_response(response, valid).0
                    &&& final(reports)@ == old(reports)@ + old(self)@.on_bodies_response(
                        response,
                        valid,
                    ).1
                },
            final(self)@.wf(),
            // A block is assembled only after the consensus rules returned `Ok` for its body.
            forall|block: SealedBlock<B>| #[trigger]
                final(self)@.downloaded_blocks.contains(block) ==> old(
                    self,
                )@.downloaded_blocks.contains(block) || exists|result: Result<(), C::Error>|
                    #[trigger]
                    call_ensures(
                        C::validate_body_against_header,
                        (consensus, &block.body, &block.header),
                        result,
                    ) && result is Ok,
    {
        let ghost before = self@;
        let mut valid: Vec<bool> = Vec::new();
        if response.data.len() == self.in_flight_bodies.len() {
            while valid.len() < response.data.len()
                invariant
                    valid@.len() <= response.data@.len() == self.in_flight_bodies@.len(),
                    forall|i: int|
                        0 <= i < valid@.len() ==> crate::consensus::body_verdict(
                            consensus,
                            &response.data@[i],
                            &self.in_flight_bodies@[i],
                            #[trigger] valid@[i],
                        ),
                decreases response.data@.len() - valid@.len(),
            {
                let i: usize = valid.len();
                valid.push(is_body_valid(consensus, &response.data[i], &self.in_flight_bodies[i]));
            }
        }
        assert(judges_bodies(consensus, self@.in_flight_bodies, response.data@, valid@));
        proof {
            crate::full_block_range_outcomes::lemma_new_blocks_need_an_ok(
                consensus,
                before,
                response,
                valid@,
            );
        }
        self.store_bodies(response, &valid, reports);
    }

    /// Starts a round of a poll: hands the blocks out if the download is complete, else drives
    /// the pipeline by making new requests if there is capacity.
    fn round(&mut self) -> (started: (NewRequests, RangeStep<B>))
        requires
            old(self)@.wf(),
        ensures
            final(self)@ == old(self)@.round(Seq::empty()).state,
            started.0@ == old(self)@.round(Seq::empty()).requests,
            started.1@ == old(self)@.round(Seq::empty()).step,
    {
        let ghost before = self@;
        if self.is_complete() {
            let mut blocks: Vec<SealedBlock<B>> = Vec::new();
            core::mem::swap(&mut blocks, &mut self.downloaded_blocks);
            let falling = reversed(sort_rising(blocks));
            assert(falling@ =~= crate::order::falling(before.downloaded_blocks));
            return (NewRequests { headers: None, bodies: None }, RangeStep::Ready(falling));
        }
        let requests = self.issue_new_requests();
        self.progress = false;
        let step = if self.headers_request {
            RangeStep::PollHeaders
        } else if self.bodies_request {
            RangeStep::PollBodies
        } else {
            RangeStep::Pending
        };
        (requests, step)
    }

    /// Advances a poll of the download by one event.
    ///
    /// A poll starts with [`RangeEvent::Start`]. As long as the step says so, the caller polls the
    /// request that it names and comes back with what that gave. The reports and requests are due
    /// before that.
    #[verifier::rlimit(40)]
    pub fn poll<C: Consensus<B>>(&mut self, consensus: &C, event: RangeEvent<B>) -> (polled:
        RangePoll<B>)
        requires
            old(self)@.wf(),
            old(self)@.accepts(event),
        ensures
            exists|range_valid: bool, valid: Seq<bool>|
                {
                    &&& #[trigger] judges_event(
                        consensus,
                        old(self)@,
                        event,
                        range_valid,
                        valid,
                    )
                    &&& polled.outcome(final(self)@) == old(self)@.after(event, range_valid, valid)
                    &&& polled.reports@ == old(self)@.after(event, range_valid, valid).reports
                    &&& polled.requests@ == old(self)@.after(event, range_valid, valid).requests
                    &&& polled.step@ == old(self)@.after(event, range_valid, valid).step
                    &&& final(self)@ == old(self)@.after(event, range_valid, valid).state
                },
            final(self)@.wf(),
            polled.step is PollHeaders ==> final(self)@.headers_request,
            polled.step is PollBodies ==> final(self)@.bodies_request,
            polled.step matches RangeStep::Ready(blocks) ==> {
                &&& blocks@.len() == old(self)@.total_to_download
                &&& crate::order::is_falling(blocks@)
                &&& blocks@.len() > 0 ==> blocks@[0].header.hash == old(self)@.start_hash
                &&& forall|i: int, j: int|
                    0 <= i <= j < blocks@.len() ==> (#[trigger] blocks@[i]).header.header.number
                        >= (#[trigger] blocks@[j]).header.header.number
            },
            // Every new block was accepted by the consensus rules, body and header together.
            forall|block: SealedBlock<B>|
                #![trigger final(self)@.downloaded_blocks.contains(block)]
                #![trigger polled.step@->Ready_0.contains(block)]
                final(self)@.downloaded_blocks.contains(block) || (polled.step is Ready
                    && polled.step@->Ready_0.contains(block)) ==> old(
                    self,
                )@.downloaded_blocks.contains(block) || exists|result: Result<(), C::Error>|
                    #[trigger]
                    call_ensures(
                        C::validate_body_against_header,
                        (consensus, &block.body, &block.header),
                        result,
                    ) && result is Ok,
            // A response brings headers only if the consensus rules returned `Ok` for them.
            final(self)@.headers_downloaded > old(self)@.headers_downloaded ==> exists|
                rising: &[SealedHeader],
                result: Result<(), C::Error>,
            | #[trigger]
                call_ensures(C::validate_header_range, (consensus, rising), result) && result is Ok
                    && final(self)@.headers_downloaded == old(self)@.headers_downloaded
                    + rising@.len(),
    {
        let ghost before = self@;
        let mut reports: Vec<PeerId> = Vec::new();
        let ghost mut range_valid: bool = true;
        let ghost mut valid: Seq<bool> = Seq::empty();
        let mut new_round: bool = false;
        let mut poll_bodies: bool = false;
        match event {
            RangeEvent::Start => {
                new_round = true;
            },
            RangeEvent::Headers(Poll::Ready(Ok(response))) => {
                self.on_headers_response(consensus, response, &mut reports);
                proof {
                    range_valid =
                    choose|valid: bool|
                        {
                            &&& #[trigger] judges_headers(
                                consensus,
                                before.candidate(response.data@),
                                valid,
                            )
                            &&& self@ == before.on_headers_response(response, valid).0
                            &&& reports@ == Seq::<PeerId>::empty() + before.on_headers_response(
                                response,
                                valid,
                            ).1
                        };
                    assert(reports@ =~= before.on_headers_response(response, range_valid).1);
                }
                self.progress = true;
                poll_bodies = true;
            },
            RangeEvent::Headers(Poll::Ready(Err(_))) => {
                // The request is done; it is made again in the next round.
                self.headers_request = false;
                self.progress = true;
                poll_bodies = true;
            },
            RangeEvent::Headers(Poll::Pending) => {
                poll_bodies = true;
            },
            RangeEvent::Bodies(Poll::Ready(Ok(response))) => {
                self.on_bodies_response(consensus, response, &mut reports);
                proof {
                    valid =
                    choose|valid: Seq<bool>|
                        {
                            &&& #[trigger] judges_bodies(
                                consensus,
                                before.in_flight_bodies,
                                response.data@,
                                valid,
                            )
                            &&& self@ == before.on_bodies_response(response, valid).0
                            &&& reports@ == Seq::<PeerId>::empty() + before.on_bodies_response(
                                response,
                                valid,
                            ).1
                        };
                    assert(reports@ =~= before.on_bodies_response(response, valid).1);
                }
                self.progress = true;
            },
            RangeEvent::Bodies(Poll::Ready(Err(_))) => {
                // Queue the headers again and make a new request in the next round.
                self.requeue_bodies();
                self.progress = true;
            },
            RangeEvent::Bodies(Poll::Pending) => {},
        }
        proof {
            assert(judges_event(consensus, before, event, range_valid, valid));
            crate::full_block_range_laws::lemma_handled(before, event, range_valid, valid);
        }
        let (requests, step) = if poll_bodies && self.bodies_request {
            (NewRequests { headers: None, bodies: None }, RangeStep::PollBodies)
        } else if new_round || self.progress {
            self.round()
        } else {
            (NewRequests { headers: None, bodies: None }, RangeStep::Pending)
        };
        let polled = RangePoll { reports, requests, step };
        proof {
            assert(polled.outcome(self@) == before.after(event, range_valid, valid));
            crate::full_block_range_outcomes::lemma_polled(
                consensus,
                before,
                event,
                range_valid,
                valid,
            );
        }
        polled
    }
}

} // verus!
