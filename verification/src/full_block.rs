//! Downloading a single block: its header and its body are requested at the same time and put
//! together once both are there.
use vstd::prelude::*;

use crate::consensus::{is_body_valid, Consensus};
use crate::primitives::{Header, SealedBlock, SealedHeader, WithPeerId, B256};
use crate::request::{ClientAction, PeerRequestResult, Poll};

verus! {

/// How many responses one poll of a download handles before it yields to the executor.
pub const POLL_BUDGET: u8 = 4;

/// A response to one of the two requests of a download.
#[derive(Debug)]
pub enum ResponseResult<B> {
    /// The header request is done.
    Header(PeerRequestResult<Option<Header>>),
    /// The body request is done.
    Body(PeerRequestResult<Option<B>>),
}

/// What drives a poll.
#[derive(Debug)]
pub enum RequestEvent<B> {
    /// The poll starts.
    Start,
    /// The header request in flight was polled.
    Header(Poll<PeerRequestResult<Option<Header>>>),
    /// The body request in flight was polled.
    Body(Poll<PeerRequestResult<Option<B>>>),
}

/// How a poll of the two requests goes on.
#[derive(Debug)]
pub enum RequestStep<B> {
    /// Poll the header request next.
    PollHeader,
    /// Poll the body request next.
    PollBody,
    /// A request is done.
    Ready(ResponseResult<B>),
    /// No request is done.
    Pending,
}

/// Which of the two requests for the parts of a block are in flight.
#[derive(Clone, Copy, Debug, PartialEq, Eq, Structural)]
pub struct FullBlockRequest {
    /// Whether the header request is in flight.
    pub header: bool,
    /// Whether the body request is in flight.
    pub body: bool,
}

impl FullBlockRequest {
    /// Only a request in flight can be polled.
    pub open spec fn accepts<B>(self, event: RequestEvent<B>) -> bool {
        match event {
            RequestEvent::Start => true,
            RequestEvent::Header(_) => self.header,
            RequestEvent::Body(_) => self.body,
        }
    }

    /// The poll goes on with the body request, if that is in flight.
    pub open spec fn then_body<B>(self) -> RequestStep<B> {
        if self.body {
            RequestStep::PollBody
        } else {
            RequestStep::Pending
        }
    }

    /// The requests after an event, and how the poll goes on: the header request is polled
    /// first, the body request only while the header is pending, and a request that is done is
    /// no longer in flight.
    pub open spec fn after<B>(self, event: RequestEvent<B>) -> (FullBlockRequest, RequestStep<B>) {
        match event {
            RequestEvent::Start => (
                self,
                if self.header {
                    RequestStep::PollHeader
                } else {
                    self.then_body()
                },
            ),
            RequestEvent::Header(Poll::Ready(result)) => (
                FullBlockRequest { header: false, body: self.body },
                RequestStep::Ready(ResponseResult::Header(result)),
            ),
            RequestEvent::Header(Poll::Pending) => (self, self.then_body()),
            RequestEvent::Body(Poll::Ready(result)) => (
                FullBlockRequest { header: self.header, body: false },
                RequestStep::Ready(ResponseResult::Body(result)),
            ),
            RequestEvent::Body(Poll::Pending) => (self, RequestStep::Pending),
        }
    }

    /// Advances the poll of the two requests by one event.
    ///
    /// The requests themselves are polled by the caller: a poll starts with
    /// [`RequestEvent::Start`], and each step says which request to poll next.
    pub fn poll<B>(&mut self, event: RequestEvent<B>) -> (step: RequestStep<B>)
        requires
            old(self).accepts(event),
        ensures
            (*final(self), step) == old(self).after(event),
    {
        match event {
            RequestEvent::Start => {
                if self.header {
                    return RequestStep::PollHeader;
                }
            },
            RequestEvent::Header(Poll::Ready(result)) => {
                self.header = false;
                return RequestStep::Ready(ResponseResult::Header(result));
            },
            RequestEvent::Header(Poll::Pending) => {},
            RequestEvent::Body(Poll::Ready(result)) => {
                self.body = false;
                return RequestStep::Ready(ResponseResult::Body(result));
            },
            RequestEvent::Body(Poll::Pending) => {
                return RequestStep::Pending;
            },
        }
        if self.body {
            RequestStep::PollBody
        } else {
            RequestStep::Pending
        }
    }
}

/// A body that a peer sent.
#[derive(Debug)]
pub enum BodyResponse<B> {
    /// The body belongs to the header.
    Validated(B),
    /// The body came before the header.
    PendingValidation(WithPeerId<B>),
}

/// How a poll of a block download goes on.
#[derive(Debug)]
pub enum PollStep<B> {
    /// Poll the header request next.
    PollHeader,
    /// Poll the body request next.
    PollBody,
    /// The download is done.
    Ready(SealedBlock<B>),
    /// The download waits for its requests.
    Pending,
    /// The budget of the poll is spent: wake the task, so that it is polled again, and wait.
    Yield,
}

/// The state of a block download.
pub struct FetchState<B> {
    /// The hash of the block.
    pub hash: B256,
    /// The requests in flight.
    pub request: FullBlockRequest,
    /// The header, once it is there.
    pub header: Option<SealedHeader>,
    /// The body, once it is there.
    pub body: Option<BodyResponse<B>>,
    /// How many responses the poll under way still handles.
    pub budget: int,
}

/// Whatever pair of a body and a header there is, `consensus` can answer `valid` to it.
pub open spec fn judges<B, C: Consensus<B>>(
    consensus: &C,
    pair: Option<(B, SealedHeader)>,
    valid: bool,
) -> bool {
    match pair {
        Some((body, header)) => crate::consensus::body_verdict(consensus, &body, &header, valid),
        None => true,
    }
}

impl<B> FetchState<B> {
    /// The download of the block with a hash, as it starts: both requests are in flight.
    pub open spec fn start(hash: B256) -> FetchState<B> {
        FetchState {
            hash,
            request: FullBlockRequest { header: true, body: true },
            header: None,
            body: None,
            budget: 0,
        }
    }

    /// A part of the block is being requested exactly as long as it is missing.
    pub open spec fn is_fetching(self) -> bool {
        &&& self.request.header <==> self.header is None
        &&& self.request.body <==> self.body is None
    }

    /// The block has been handed out.
    pub open spec fn is_finished(self) -> bool {
        &&& self.header is None
        &&& self.body is None
        &&& !self.request.header
        &&& !self.request.body
    }

    /// What holds of every download.
    pub open spec fn wf(self) -> bool {
        &&& self.is_fetching() || self.is_finished()
        &&& self.header matches Some(header) ==> header.is_sealed() && header.hash == self.hash
        &&& self.body matches Some(BodyResponse::Validated(_)) ==> self.header is Some
        &&& 0 <= self.budget <= POLL_BUDGET
    }

    /// A poll starts at any time; a request is polled while it is in flight, as part of a poll
    /// that has budget left.
    pub open spec fn accepts(self, event: RequestEvent<B>) -> bool {
        &&& self.request.accepts(event)
        &&& event is Start || self.budget > 0
    }

    /// The body and the header that must be validated against each other when a body comes.
    pub open spec fn pair_with(self, body: B) -> Option<(B, SealedHeader)> {
        match self.header {
            Some(header) => Some((body, header)),
            None => None,
        }
    }

    /// The download after a peer sent a body, and what it asks of the client. A body that does
    /// not belong to the header is dropped and its peer reported; one that comes before the
    /// header is kept for later.
    pub open spec fn on_block_response(self, response: WithPeerId<B>, valid: bool) -> (
        FetchState<B>,
        Seq<ClientAction>,
    ) {
        if self.header is None {
            (
                FetchState { body: Some(BodyResponse::PendingValidation(response)), ..self },
                Seq::empty(),
            )
        } else if valid {
            (FetchState { body: Some(BodyResponse::Validated(response.data)), ..self }, Seq::empty())
        } else {
            (self, seq![ClientAction::ReportBadMessage(response.peer_id)])
        }
    }

    /// The body that came before the header, and the header.
    pub open spec fn pair_to_take(self) -> Option<(B, SealedHeader)> {
        match (self.header, self.body) {
            (Some(header), Some(BodyResponse::PendingValidation(response))) => Some(
                (response.data, header),
            ),
            _ => None,
        }
    }

    /// The download after the block was taken out of it, what it asks of the client, and the
    /// block, if header and body are both there and belong together. If they do not, the body's
    /// peer is reported, and the body is requested again.
    pub open spec fn take_block(self, valid: bool) -> (
        FetchState<B>,
        Seq<ClientAction>,
        Option<SealedBlock<B>>,
    ) {
        match (self.header, self.body) {
            (Some(header), Some(BodyResponse::Validated(body))) => (
                FetchState { header: None, body: None, ..self },
                Seq::empty(),
                Some(SealedBlock { header, body }),
            ),
            (Some(header), Some(BodyResponse::PendingValidation(response))) => if valid {
                (
                    FetchState { header: None, body: None, ..self },
                    Seq::empty(),
                    Some(SealedBlock { header, body: response.data }),
                )
            } else {
                (
                    FetchState {
                        body: None,
                        request: FullBlockRequest { header: self.request.header, body: true },
                        ..self
                    },
                    seq![
                        ClientAction::ReportBadMessage(response.peer_id),
                        ClientAction::GetBlockBody(self.hash),
                    ],
                    None,
                )
            },
            _ => (self, Seq::empty(), None),
        }
    }

    /// The body and the header that must be validated against each other when a response comes.
    pub open spec fn pair_for(self, response: ResponseResult<B>) -> Option<(B, SealedHeader)> {
        match response {
            ResponseResult::Body(Ok(WithPeerId { peer_id, data: Some(body) })) => self.pair_with(
                body,
            ),
            _ => None,
        }
    }

    /// The download after a response to one of its requests, and what it asks of the client. A
    /// header with another hash than the requested one is dropped and its peer reported. A part
    /// that is still missing is requested again.
    pub open spec fn on_response(self, response: ResponseResult<B>, valid: bool) -> (
        FetchState<B>,
        Seq<ClientAction>,
    ) {
        match response {
            ResponseResult::Header(result) => {
                let (checked, reports) = match result {
                    Ok(WithPeerId { peer_id, data: Some(header) }) => {
                        if header.seal() == self.hash {
                            (
                                FetchState {
                                    header: Some(crate::primitives::sealed(header)),
                                    ..self
                                },
                                Seq::empty(),
                            )
                        } else {
                            (self, seq![ClientAction::ReportBadMessage(peer_id)])
                        }
                    },
                    _ => (self, Seq::empty()),
                };
                if checked.header is None {
                    (
                        FetchState {
                            request: FullBlockRequest { header: true, body: checked.request.body },
                            ..checked
                        },
                        reports.push(ClientAction::GetHeader(self.hash)),
                    )
                } else {
                    (checked, reports)
                }
            },
            ResponseResult::Body(result) => {
                let (checked, reports) = match result {
                    Ok(WithPeerId { peer_id, data: Some(body) }) => self.on_block_response(
                        WithPeerId { peer_id, data: body },
                        valid,
                    ),
                    _ => (self, Seq::empty()),
                };
                if checked.body is None {
                    (
                        FetchState {
                            request: FullBlockRequest { header: checked.request.header, body: true },
                            ..checked
                        },
                        reports.push(ClientAction::GetBlockBody(self.hash)),
                    )
                } else {
                    (checked, reports)
                }
            },
        }
    }

    /// One round of a poll: the block is taken if it is complete, else the requests are polled.
    pub open spec fn turn(self, valid: bool) -> (FetchState<B>, Seq<ClientAction>, PollStep<B>) {
        let (taken, actions, block) = self.take_block(valid);
        match block {
            Some(block) => (taken, actions, PollStep::Ready(block)),
            None => (
                taken,
                actions,
                match taken.request.after::<B>(RequestEvent::Start).1 {
                    RequestStep::PollHeader => PollStep::PollHeader,
                    RequestStep::PollBody => PollStep::PollBody,
                    _ => PollStep::Pending,
                },
            ),
        }
    }

    /// The body and the header that must be validated against each other in the course of an
    /// event. There is one such pair at most.
    pub open spec fn pair_in(self, event: RequestEvent<B>) -> Option<(B, SealedHeader)> {
        let (request, step) = self.request.after(event);
        let polled = FetchState { request, ..self };
        match (event, step) {
            (RequestEvent::Start, _) => self.pair_to_take(),
            (_, RequestStep::Ready(response)) => {
                if polled.pair_for(response) is Some {
                    polled.pair_for(response)
                } else if self.budget == 1 {
                    None
                } else {
                    polled.on_response(response, true).0.pair_to_take()
                }
            },
            _ => None,
        }
    }

    /// The download after an event, what it asks of the client, and how the poll goes on.
    /// `valid` is the answer of the consensus rules to the pair that the event leads to, if it
    /// leads to one.
    pub open spec fn after(self, event: RequestEvent<B>, valid: bool) -> (
        FetchState<B>,
        Seq<ClientAction>,
        PollStep<B>,
    ) {
        let (request, step) = self.request.after(event);
        let polled = FetchState { request, ..self };
        match (event, step) {
            (RequestEvent::Start, _) => FetchState { budget: POLL_BUDGET as int, ..self }.turn(
                valid,
            ),
            (_, RequestStep::Ready(response)) => {
                let (handled, actions) = polled.on_response(response, valid);
                let spent = FetchState { budget: handled.budget - 1, ..handled };
                if spent.budget == 0 {
                    (spent, actions, PollStep::Yield)
                } else {
                    let (next, more, poll_step) = spent.turn(valid);
                    (next, actions + more, poll_step)
                }
            },
            (_, RequestStep::PollHeader) => (polled, Seq::empty(), PollStep::PollHeader),
            (_, RequestStep::PollBody) => (polled, Seq::empty(), PollStep::PollBody),
            (_, RequestStep::Pending) => (polled, Seq::empty(), PollStep::Pending),
        }
    }
}

/// The download of a full block from the network.
///
/// The header and the body of the block with the given hash are requested at the same time. When
/// both requests have succeeded, the download yields the full block.
///
/// The download does no input or output of its own. What it needs of the network client it
/// returns as [`ClientAction`]s, and it is told of the responses by [`Self::poll`].
#[must_use]
#[derive(Debug)]
pub struct FetchFullBlockFuture<B> {
    hash: B256,
    request: FullBlockRequest,
    header: Option<SealedHeader>,
    body: Option<BodyResponse<B>>,
    budget: u8,
}

impl<B> View for FetchFullBlockFuture<B> {
    type V = FetchState<B>;

    closed spec fn view(&self) -> FetchState<B> {
        FetchState {
            hash: self.hash,
            request: self.request,
            header: self.header,
            body: self.body,
            budget: self.budget as int,
        }
    }
}

impl<B> FetchFullBlockFuture<B> {
    /// Starts the download of the block with a hash, and returns the requests for its parts.
    pub(crate) fn new(hash: B256) -> (started: (FetchFullBlockFuture<B>, Vec<ClientAction>))
        ensures
            started.0@ == FetchState::<B>::start(hash),
            started.0@.wf(),
            started.1@ == seq![ClientAction::GetHeader(hash), ClientAction::GetBlockBody(hash)],
    {
        let future = FetchFullBlockFuture {
            hash,
            request: FullBlockRequest { header: true, body: true },
            header: None,
            body: None,
            budget: 0,
        };
        let mut actions: Vec<ClientAction> = Vec::new();
        actions.push(ClientAction::GetHeader(hash));
        actions.push(ClientAction::GetBlockBody(hash));
        (future, actions)
    }

    /// Returns the hash of the block being requested.
    pub fn hash(&self) -> (hash: &B256)
        ensures
            *hash == self@.hash,
    {
        &self.hash
    }

    /// If the header request is already complete, this returns the block number.
    pub fn block_number(&self) -> (number: Option<u64>)
        ensures
            number == (match self@.header {
                Some(header) => Some(header.header.number),
                None => None,
            }),
    {
        match &self.header {
            Some(header) => Some(header.number()),
            None => None,
        }
    }

    /// Returns the header, if the header request is already complete.
    pub fn header(&self) -> (header: &Option<SealedHeader>)
        ensures
            *header == self@.header,
    {
        &self.header
    }

    /// Returns the body, if the body request is already complete.
    pub fn body(&self) -> (body: &Option<BodyResponse<B>>)
        ensures
            *body == self@.body,
    {
        &self.body
    }

    /// Stores a body that a peer sent, given whether it belongs to the header. The answer
    /// counts only if the header is there.
    pub fn store_body(
        &mut self,
        response: WithPeerId<B>,
        valid: bool,
        actions: &mut Vec<ClientAction>,
    )
        ensures
            final(self)@ == old(self)@.on_block_response(response, valid).0,
            final(actions)@ == old(actions)@ + old(self)@.on_block_response(response, valid).1,
    {
        if self.header.is_none() {
            self.body = Some(BodyResponse::PendingValidation(response));
        } else if valid {
            self.body = Some(BodyResponse::Validated(response.data));
        } else {
            // Don't set the body, it is requested again.
            actions.push(ClientAction::ReportBadMessage(response.peer_id));
        }
    }

    /// Handles a body that a peer sent.
    pub fn on_block_response<C: Consensus<B>>(
        &mut self,
        consensus: &C,
        response: WithPeerId<B>,
        actions: &mut Vec<ClientAction>,
    )
        ensures
            exists|valid: bool|
                {
                    &&& #[trigger] judges(consensus, old(self)@.pair_with(response.data), valid)
                    &&& final(self)@ == old(self)@.on_block_response(response, valid).0
                    &&& final(actions)@ == old(actions)@ + old(self)@.on_block_response(
                        response,
                        valid,
                    ).1
                },
    {
        let valid: bool = match &self.header {
            Some(header) => is_body_valid(consensus, &response.data, header),
            None => true,
        };
        assert(judges(consensus, old(self)@.pair_with(response.data), valid));
        self.store_body(response, valid, actions);
    }

    /// Takes the block out, given whether a body that came before the header belongs to it. The
    /// answer counts only if there are such a body and the header.
    pub fn take_judged_block(&mut self, valid: bool, actions: &mut Vec<ClientAction>) -> (block:
        Option<SealedBlock<B>>)
        ensures
            (final(self)@, block) == (
                old(self)@.take_block(valid).0,
                old(self)@.take_block(valid).2,
            ),
            final(actions)@ == old(actions)@ + old(self)@.take_block(valid).1,
    {
        if self.header.is_none() || self.body.is_none() {
            return None;
        }
        match self.body.take() {
            Some(BodyResponse::Validated(body)) => {
                let header = self.header.take().unwrap();
                Some(SealedBlock::from_sealed_parts(header, body))
            },
            Some(BodyResponse::PendingValidation(response)) => {
                if valid {
                    let header = self.header.take().unwrap();
                    Some(SealedBlock::from_sealed_parts(header, response.data))
                } else {
                    // Keep the header and request another body.
                    actions.push(ClientAction::ReportBadMessage(response.peer_id));
                    self.request.body = true;
                    actions.push(ClientAction::GetBlockBody(self.hash));
                    None
                }
            },
            None => None,
        }
    }

    /// Returns the block if the download is complete and valid.
    pub fn take_block<C: Consensus<B>>(
        &mut self,
        consensus: &C,
        actions: &mut Vec<ClientAction>,
    ) -> (block: Option<SealedBlock<B>>)
        ensures
            exists|valid: bool|
                {
                    &&& #[trigger] judges(consensus, old(self)@.pair_to_take(), valid)
                    &&& (final(self)@, block) == (
                        old(self)@.take_block(valid).0,
                        old(self)@.take_block(valid).2,
                    )
                    &&& final(actions)@ == old(actions)@ + old(self)@.take_block(valid).1
                },
    {
        let valid: bool = match (&self.header, &self.body) {
            (Some(header), Some(BodyResponse::PendingValidation(response))) => is_body_valid(
                consensus,
                &response.data,
                header,
            ),
            _ => true,
        };
        assert(judges(consensus, old(self)@.pair_to_take(), valid));
        self.take_judged_block(valid, actions)
    }

    /// Handles a response to one of the requests, and requests a part that is still missing
    /// again.
    pub fn on_response<C: Consensus<B>>(
        &mut self,
        consensus: &C,
        response: ResponseResult<B>,
        actions: &mut Vec<ClientAction>,
    )
        ensures
            exists|valid: bool|
                {
                    &&& #[trigger] judges(consensus, old(self)@.pair_for(response), valid)
                    &&& final(self)@ == old(self)@.on_response(response, valid).0
                    &&& final(actions)@ == old(actions)@ + old(self)@.on_response(
                        response,
                        valid,
                    ).1
                },
    {
        let ghost before = self@;
        let ghost asked = actions@;
        match response {
            ResponseResult::Header(result) => {
                if let Ok(response) = result {
                    let (peer_id, data) = response.split();
                    if let Some(header) = data {
                        let sealed_header = SealedHeader::seal_slow(header);
                        if sealed_header.hash() == self.hash {
                            self.header = Some(sealed_header);
                        } else {
                            // Received a different header than requested.
                            actions.push(ClientAction::ReportBadMessage(peer_id));
                        }
                    }
                }
                if self.header.is_none() {
                    // Received a bad response or an error, retry.
                    self.request.header = true;
                    actions.push(ClientAction::GetHeader(self.hash));
                }
                proof {
                    assert(judges(consensus, before.pair_for(response), true));
                    assert(actions@ =~= asked + before.on_response(response, true).1);
                    assert(self@ == before.on_response(response, true).0);
                }
            },
            ResponseResult::Body(result) => {
                let ghost mut valid: bool = true;
                if let Ok(response) = result {
                    if let Some(body) = response.transpose() {
                        self.on_block_response(consensus, body, actions);
                        proof {
                            valid =
                            choose|valid: bool|
                                {
                                    &&& #[trigger] judges(
                                        consensus,
                                        before.pair_with(body.data),
                                        valid,
                                    )
                                    &&& self@ == before.on_block_response(body, valid).0
                                    &&& actions@ == asked + before.on_block_response(
                                        body,
                                        valid,
                                    ).1
                                };
                        }
                    }
                }
                if self.body.is_none() {
                    // Received a bad response or an error, retry.
                    self.request.body = true;
                    actions.push(ClientAction::GetBlockBody(self.hash));
                }
                proof {
                    assert(judges(consensus, before.pair_for(response), valid));
                    assert(actions@ =~= asked + before.on_response(response, valid).1);
                    assert(self@ == before.on_response(response, valid).0);
                }
            },
        }
    }

    /// Advances a poll of the download by one event, and returns how the poll goes on and what
    /// the download asks of the client.
    ///
    /// A poll starts with [`RequestEvent::Start`]. As long as the step says so, the caller polls
    /// the request that it names and comes back with what that gave. The actions are due before
    /// that. One poll handles [`POLL_BUDGET`] responses at most, so that it does not starve the
    /// executor.
    pub fn poll<C: Consensus<B>>(&mut self, consensus: &C, event: RequestEvent<B>) -> (polled: (
        PollStep<B>,
        Vec<ClientAction>,
    ))
        requires
            old(self)@.wf(),
            old(self)@.accepts(event),
        ensures
            exists|valid: bool|
                {
                    &&& #[trigger] judges(consensus, old(self)@.pair_in(event), valid)
                    &&& (final(self)@, polled.1@, polled.0) == old(self)@.after(event, valid)
                },
            final(self)@.wf(),
            polled.0 is PollHeader ==> final(self)@.request.header && final(self)@.budget > 0,
            polled.0 is PollBody ==> final(self)@.request.body && final(self)@.budget > 0,
            polled.0 matches PollStep::Ready(block) ==> block.header.hash == old(self)@.hash
                && block.header.is_sealed() && block.header.header.seal() == old(self)@.hash,
            // A body that was not validated before is handed out only after the consensus rules
            // returned `Ok` for it and the header.
            polled.0 matches PollStep::Ready(block) ==> (old(self)@.header == Some(block.header)
                && old(self)@.body == Some(BodyResponse::Validated(block.body))) || exists|
                result: Result<(), C::Error>,
            | #[trigger]
                call_ensures(
                    C::validate_body_against_header,
                    (consensus, &block.body, &block.header),
                    result,
                ) && result is Ok,
            // And only then it counts as validated.
            final(self)@.body matches Some(BodyResponse::Validated(body)) ==> (old(self)@.header
                == final(self)@.header && old(self)@.body == final(self)@.body) || (
            final(self)@.header is Some && exists|result: Result<(), C::Error>| #[trigger]
                call_ensures(
                    C::validate_body_against_header,
                    (consensus, &body, &final(self)@.header->0),
                    result,
                ) && result is Ok),
    {
        let ghost before = self@;
        let mut actions: Vec<ClientAction> = Vec::new();
        let ghost mut first: bool = true;
        if let RequestEvent::Start = event {
            self.budget = POLL_BUDGET;
        } else {
            match self.request.poll(event) {
                RequestStep::Ready(response) => {
                    let ghost polled = self@;
                    self.on_response(consensus, response, &mut actions);
                    proof {
                        first =
                        choose|valid: bool|
                            {
                                &&& #[trigger] judges(consensus, polled.pair_for(response), valid)
                                &&& self@ == polled.on_response(response, valid).0
                                &&& actions@ == Seq::<ClientAction>::empty() + polled.on_response(
                                    response,
                                    valid,
                                ).1
                            };
                    }
                    // Ensure there is still enough budget for another round.
                    self.budget = self.budget - 1;
                    if self.budget == 0 {
                        assert(judges(consensus, before.pair_in(event), first));
                        return (PollStep::Yield, actions);
                    }
                },
                RequestStep::PollHeader => {
                    assert(judges(consensus, before.pair_in(event), true));
                    return (PollStep::PollHeader, actions);
                },
                RequestStep::PollBody => {
                    assert(judges(consensus, before.pair_in(event), true));
                    return (PollStep::PollBody, actions);
                },
                RequestStep::Pending => {
                    assert(judges(consensus, before.pair_in(event), true));
                    return (PollStep::Pending, actions);
                },
            }
        }
        let ghost spent = self@;
        let ghost asked = actions@;
        let taken = self.take_block(consensus, &mut actions);
        let ghost second = choose|valid: bool|
            {
                &&& #[trigger] judges(consensus, spent.pair_to_take(), valid)
                &&& (self@, taken) == (spent.take_block(valid).0, spent.take_block(valid).2)
                &&& actions@ == asked + spent.take_block(valid).1
            };
        let ghost valid = if spent.pair_to_take() is Some {
            second
        } else {
            first
        };
        proof {
            assert(judges(consensus, before.pair_in(event), valid));
            assert(self@ == before.after(event, valid).0);
            assert(actions@ =~= before.after(event, valid).1);
        }
        match taken {
            Some(block) => (PollStep::Ready(block), actions),
            None => {
                let step = match self.request.poll(RequestEvent::<B>::Start) {
                    RequestStep::PollHeader => PollStep::PollHeader,
                    RequestStep::PollBody => PollStep::PollBody,
                    _ => PollStep::Pending,
                };
                (step, actions)
            },
        }
    }
}

} // verus!
