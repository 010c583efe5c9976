//! Laws of the download of a single block.
use vstd::prelude::*;

use crate::consensus::Consensus;
use crate::full_block::{
    BodyResponse, FetchState, FullBlockRequest, PollStep, RequestEvent, RequestStep, ResponseResult,
    POLL_BUDGET,
};
use crate::primitives::{Header, PeerId, SealedBlock, SealedHeader, WithPeerId, B256};
use crate::request::{ClientAction, Poll, RequestError};

verus! {

/// The header request is polled before the body request: the body is polled only after the
/// header request was found pending, or when no header request is in flight. A request that is
/// not in flight is never polled.
pub proof fn law_header_is_polled_first<B>(request: FullBlockRequest, event: RequestEvent<B>)
    requires
        request.accepts(event),
    ensures
        request.after(event).1 is PollBody ==> request.body && (event == RequestEvent::<B>::Header(
            Poll::Pending,
        ) || event is Start && !request.header),
        request.after(event).1 is PollHeader ==> request.header && event is Start,
{
}

/// A response ends exactly the request that it answers.
pub proof fn law_response_ends_its_request<B>(request: FullBlockRequest, event: RequestEvent<B>)
    requires
        request.accepts(event),
    ensures
        request.after(event).0.header <==> request.header && !(request.after(event).1 matches
            RequestStep::Ready(ResponseResult::Header(_))),
        request.after(event).0.body <==> request.body && !(request.after(event).1 matches
            RequestStep::Ready(ResponseResult::Body(_))),
{
}

/// What holds of every download is kept by every event, whatever the consensus rules answer,
/// and a step never asks for a poll that the download does not accept.
pub proof fn law_download_stays_well_formed<B>(
    state: FetchState<B>,
    event: RequestEvent<B>,
    valid: bool,
)
    requires
        state.wf(),
        state.accepts(event),
    ensures
        state.after(event, valid).0.wf(),
        state.after(event, valid).0.hash == state.hash,
        state.after(event, valid).2 is PollHeader ==> forall|polled|
            #[trigger] state.after(event, valid).0.accepts(RequestEvent::Header(polled)),
        state.after(event, valid).2 is PollBody ==> forall|polled|
            #[trigger] state.after(event, valid).0.accepts(RequestEvent::Body(polled)),
{
}

/// The block that a download yields has the requested hash, and that hash is the hash of its
/// header.
pub proof fn law_block_has_requested_hash<B>(
    state: FetchState<B>,
    event: RequestEvent<B>,
    valid: bool,
    block: SealedBlock<B>,
)
    requires
        state.wf(),
        state.accepts(event),
        state.after(event, valid).2 == PollStep::Ready(block),
    ensures
        block.header.hash == state.hash,
        block.header.header.seal() == state.hash,
{
}

/// A body makes it into a block, or counts as validated, only if the consensus rules accepted it
/// for the header: in this event, or in the earlier one that validated it.
pub proof fn law_only_accepted_bodies<B>(
    state: FetchState<B>,
    event: RequestEvent<B>,
    valid: bool,
)
    requires
        state.wf(),
        state.accepts(event),
    ensures
        state.after(event, valid).2 matches PollStep::Ready(block) ==> (valid && state.pair_in(
            event,
        ) == Some((block.body, block.header))) || (state.header == Some(block.header) && state.body
            == Some(BodyResponse::Validated(block.body))),
        state.after(event, valid).0.body matches Some(BodyResponse::Validated(body)) ==> state.body
            == Some(BodyResponse::Validated(body)) || (valid && state.after(
            event,
            valid,
        ).0.header is Some && state.pair_in(event) == Some(
            (body, state.after(event, valid).0.header->0),
        )),
{
}

/// A header, once it is there, is kept until the block is complete.
pub proof fn law_header_is_kept<B>(state: FetchState<B>, event: RequestEvent<B>, valid: bool)
    requires
        state.wf(),
        state.accepts(event),
        state.header is Some,
    ensures
        state.after(event, valid).0.header == state.header || (state.after(event, valid).2 matches
            PollStep::Ready(block) && block.header == state.header->0),
{
}

/// A body, once it is there, is kept until the block is complete, unless the consensus rules
/// refuse it.
pub proof fn law_body_is_kept<B>(state: FetchState<B>, event: RequestEvent<B>, valid: bool)
    requires
        state.wf(),
        state.accepts(event),
        state.body is Some,
    ensures
        state.after(event, valid).0.body == state.body || state.after(event, valid).2 is Ready || (
        !valid && state.body->0 is PendingValidation && state.pair_in(
            event,
        ) is Some),
{
}

/// A download that waits has a request in flight, so it does not wait forever by its own doing.
pub proof fn law_download_is_never_stuck<B>(
    state: FetchState<B>,
    event: RequestEvent<B>,
    valid: bool,
)
    requires
        state.wf(),
        state.accepts(event),
        state.is_fetching(),
    ensures
        state.after(event, valid).2 is Ready || state.after(event, valid).0.is_fetching(),
        state.after(event, valid).2 is Pending ==> state.after(event, valid).0.request.header
            || state.after(event, valid).0.request.body,
{
}

/// Requests and actions agree: an event puts a request in flight exactly if it asks the client
/// for it, and every request is for the block of the download.
pub proof fn law_requests_match_actions<B>(
    state: FetchState<B>,
    event: RequestEvent<B>,
    valid: bool,
    hash: B256,
)
    requires
        state.wf(),
        state.accepts(event),
    ensures
        state.after(event, valid).1.contains(ClientAction::GetHeader(hash)) <==> hash == state.hash
            && state.after(event, valid).0.request.header && !state.request.after(event).0.header,
        state.after(event, valid).1.contains(ClientAction::GetBlockBody(hash)) <==> hash
            == state.hash && state.after(event, valid).0.request.body && !state.request.after(
            event,
        ).0.body,
{
    let (after, actions, step) = state.after(event, valid);
    assert(actions.len() <= 2);
    if after.request.header && !state.request.after(event).0.header {
        assert(actions[actions.len() - 1] == ClientAction::GetHeader(state.hash));
    }
    if after.request.body && !state.request.after(event).0.body {
        assert(actions[actions.len() - 1] == ClientAction::GetBlockBody(state.hash));
    }
}

/// A failed or empty response changes nothing of what has been downloaded; the part is requested
/// again, and nobody is reported.
pub proof fn law_failed_response_is_retried<B>(
    state: FetchState<B>,
    error: RequestError,
    peer_id: PeerId,
    valid: bool,
)
    requires
        state.wf(),
    ensures
        state.request.header ==> {
            let failed = FetchState {
                request: FullBlockRequest { header: false, body: state.request.body },
                ..state
            };
            &&& failed.on_response(ResponseResult::Header(Err(error)), valid) == (
                state,
                seq![ClientAction::GetHeader(state.hash)],
            )
            &&& failed.on_response(
                ResponseResult::Header(Ok(WithPeerId { peer_id, data: None })),
                valid,
            ) == (state, seq![ClientAction::GetHeader(state.hash)])
        },
        state.request.body ==> {
            let failed = FetchState {
                request: FullBlockRequest { header: state.request.header, body: false },
                ..state
            };
            &&& failed.on_response(ResponseResult::Body(Err(error)), valid) == (
                state,
                seq![ClientAction::GetBlockBody(state.hash)],
            )
            &&& failed.on_response(
                ResponseResult::Body(Ok(WithPeerId { peer_id, data: None })),
                valid,
            ) == (state, seq![ClientAction::GetBlockBody(state.hash)])
        },
{
}

/// A header with another hash than the requested one changes nothing of what has been
/// downloaded; its peer is reported, and the header is requested again.
pub proof fn law_wrong_header_is_reported<B>(
    state: FetchState<B>,
    peer_id: PeerId,
    header: Header,
    valid: bool,
)
    requires
        state.wf(),
        state.request.header,
        header.seal() != state.hash,
    ensures
        ({
            let polled = FetchState {
                request: FullBlockRequest { header: false, body: state.request.body },
                ..state
            };
            polled.on_response(
                ResponseResult::Header(Ok(WithPeerId { peer_id, data: Some(header) })),
                valid,
            ) == (
                state,
                seq![ClientAction::ReportBadMessage(peer_id), ClientAction::GetHeader(state.hash)],
            )
        }),
{
}

/// A body that the consensus rules refuse changes nothing of what has been downloaded; its peer
/// is reported, and the body is requested again.
pub proof fn law_wrong_body_is_reported<B>(state: FetchState<B>, peer_id: PeerId, body: B)
    requires
        state.wf(),
        state.request.body,
        state.header is Some,
    ensures
        ({
            let polled = FetchState {
                request: FullBlockRequest { header: state.request.header, body: false },
                ..state
            };
            polled.on_response(
                ResponseResult::Body(Ok(WithPeerId { peer_id, data: Some(body) })),
                false,
            ) == (
                state,
                seq![
                    ClientAction::ReportBadMessage(peer_id),
                    ClientAction::GetBlockBody(state.hash),
                ],
            )
        }),
{
}

/// A body that came before the header and is then refused changes nothing else: the header
/// stays, the body's peer is reported, and the body is requested again.
pub proof fn law_early_wrong_body_is_reported<B>(state: FetchState<B>, response: WithPeerId<B>)
    requires
        state.wf(),
        state.header is Some,
        state.body == Some(BodyResponse::PendingValidation(response)),
    ensures
        state.take_block(false) == (
            FetchState {
                body: None,
                request: FullBlockRequest { header: state.request.header, body: true },
                ..state
            },
            seq![
                ClientAction::ReportBadMessage(response.peer_id),
                ClientAction::GetBlockBody(state.hash),
            ],
            None::<SealedBlock<B>>,
        ),
{
}

/// A poll starts with the whole budget. Every response takes one off it, and the poll yields
/// exactly when a response takes the last one.
pub proof fn law_poll_has_a_budget<B>(state: FetchState<B>, event: RequestEvent<B>, valid: bool)
    requires
        state.wf(),
        state.accepts(event),
    ensures
        event is Start ==> state.after(event, valid).0.budget == POLL_BUDGET,
        !(event is Start) && state.request.after(event).1 is Ready ==> state.after(
            event,
            valid,
        ).0.budget == state.budget - 1,
        !(event is Start) && !(state.request.after(event).1 is Ready) ==> state.after(
            event,
            valid,
        ).0.budget == state.budget,
        state.after(event, valid).2 is Yield <==> !(event is Start) && state.request.after(
            event,
        ).1 is Ready && state.budget == 1,
{
}

/// When the header is there, and a body comes and the consensus rules accept it, the download
/// yields the block of the two: at once, or, if that response spends the budget of the poll, when
/// the next poll starts. It asks nothing more of the client.
pub proof fn law_body_completes_the_block<B>(
    state: FetchState<B>,
    header: SealedHeader,
    peer_id: PeerId,
    body: B,
    valid: bool,
)
    requires
        state.wf(),
        state.is_fetching(),
        state.budget > 0,
        state.header == Some(header),
        state.body is None,
    ensures
        ({
            let block = SealedBlock { header, body };
            let event = RequestEvent::Body(
                Poll::Ready(Ok(WithPeerId { peer_id, data: Some(body) })),
            );
            let (next, actions, step) = state.after(event, true);
            let (done, more, next_step) = next.after(RequestEvent::Start, valid);
            &&& state.accepts(event)
            &&& state.pair_in(event) == Some((body, header))
            &&& actions =~= Seq::empty()
            &&& state.budget > 1 ==> step == PollStep::Ready(block) && next.is_finished()
            &&& state.budget == 1 ==> {
                &&& step is Yield
                &&& next.pair_in(RequestEvent::Start) is None
                &&& next_step == PollStep::Ready(block)
                &&& more =~= Seq::empty()
                &&& done.is_finished()
            }
        }),
{
}

/// When a body is there, and the header with the requested hash comes and the consensus rules
/// accept the body for it, the download yields the block of the two: at once, or, if that response
/// spends the budget of the poll, when the next poll starts. It asks nothing more of the client.
pub proof fn law_header_completes_the_block<B>(
    state: FetchState<B>,
    peer_id: PeerId,
    header: Header,
    response: WithPeerId<B>,
    valid: bool,
)
    requires
        state.wf(),
        state.is_fetching(),
        state.budget > 0,
        state.header is None,
        state.body == Some(BodyResponse::PendingValidation(response)),
        header.seal() == state.hash,
    ensures
        ({
            let sealed_header = crate::primitives::sealed(header);
            let block = SealedBlock { header: sealed_header, body: response.data };
            let event = RequestEvent::<B>::Header(
                Poll::Ready(Ok(WithPeerId { peer_id, data: Some(header) })),
            );
            let (next, actions, step) = state.after(event, true);
            let (yielded, asked, yield_step) = state.after(event, valid);
            let (done, more, next_step) = yielded.after(RequestEvent::Start, true);
            &&& state.accepts(event)
            &&& state.budget > 1 ==> {
                &&& state.pair_in(event) == Some((response.data, sealed_header))
                &&& step == PollStep::Ready(block)
                &&& actions =~= Seq::empty()
                &&& next.is_finished()
            }
            &&& state.budget == 1 ==> {
                &&& state.pair_in(event) is None
                &&& yield_step is Yield
                &&& asked =~= Seq::empty()
                &&& yielded.pair_in(RequestEvent::Start) == Some((response.data, sealed_header))
                &&& next_step == PollStep::Ready(block)
                &&& more =~= Seq::empty()
                &&& done.is_finished()
            }
        }),
{
}

/// A download that holds one part of the block holds the header, or a body that waits for the
/// header; the other part is being requested.
pub proof fn law_one_part_waits_for_the_other<B>(state: FetchState<B>)
    requires
        state.wf(),
        state.is_fetching(),
        state.header is Some <==> state.body is None,
    ensures
        state.header is Some ==> state.request.body && !state.request.header,
        state.header is None ==> state.request.header && !state.request.body
            && state.body->0 is PendingValidation,
{
}

/// If both requests succeed in the first poll, that poll yields the full block, whichever part
/// comes first.
pub proof fn law_first_poll_can_make_the_block<B>(
    header: Header,
    header_peer: PeerId,
    body: B,
    body_peer: PeerId,
)
    ensures
        ({
            let block = SealedBlock { header: crate::primitives::sealed(header), body };
            let header_event = RequestEvent::<B>::Header(
                Poll::Ready(Ok(WithPeerId { peer_id: header_peer, data: Some(header) })),
            );
            let body_event = RequestEvent::<B>::Body(
                Poll::Ready(Ok(WithPeerId { peer_id: body_peer, data: Some(body) })),
            );
            let started = FetchState::<B>::start(header.seal()).after(RequestEvent::Start, true);
            let header_there = started.0.after(header_event, true);
            let header_then_body = header_there.0.after(body_event, true);
            let no_header_yet = started.0.after(RequestEvent::Header(Poll::Pending), true);
            let body_there = no_header_yet.0.after(body_event, true);
            let body_then_header = body_there.0.after(header_event, true);
            &&& started.2 is PollHeader
            &&& header_there.2 is PollBody
            &&& header_then_body.2 == PollStep::Ready(block)
            &&& no_header_yet.2 is PollBody
            &&& body_there.2 is PollHeader
            &&& body_then_header.2 == PollStep::Ready(block)
            &&& header_then_body.1 =~= Seq::empty()
            &&& body_then_header.1 =~= Seq::empty()
        }),
{
}

/// Of the two requests, the header request is polled whenever a poll starts and it is in flight, and
/// the body request whenever it is in flight and the header request is not, or was found pending.
/// A poll of the two requests is over without a response only when each that is in flight was found
/// pending. What comes back is handed on as it is.
pub proof fn law_requests_are_polled_in_turn<B>(request: FullBlockRequest, event: RequestEvent<B>)
    ensures
        request.accepts(event) <==> (event is Start || (event is Header && request.header) || (
        event is Body && request.body)),
        event is Start ==> {
            &&& request.after(event).0 == request
            &&& request.header ==> request.after(event).1 is PollHeader
            &&& !request.header && request.body ==> request.after(event).1 is PollBody
            &&& !request.header && !request.body ==> request.after(event).1 is Pending
        },
        event == RequestEvent::<B>::Header(Poll::Pending) ==> {
            &&& request.after(event).0 == request
            &&& request.body ==> request.after(event).1 is PollBody
            &&& !request.body ==> request.after(event).1 is Pending
        },
        event == RequestEvent::<B>::Body(Poll::Pending) ==> {
            &&& request.after(event).0 == request
            &&& request.after(event).1 is Pending
        },
        event matches RequestEvent::Header(Poll::Ready(result)) ==> {
            &&& !request.after(event).0.header
            &&& request.after(event).0.body == request.body
            &&& request.after(event).1 == RequestStep::<B>::Ready(ResponseResult::Header(result))
        },
        event matches RequestEvent::Body(Poll::Ready(result)) ==> {
            &&& !request.after(event).0.body
            &&& request.after(event).0.header == request.header
            &&& request.after(event).1 == RequestStep::Ready(ResponseResult::Body(result))
        },
{
}

/// A download starts with the requested hash, with nothing there and both parts requested.
pub proof fn law_download_starts_with_both_requests<B>(hash: B256)
    ensures
        FetchState::<B>::start(hash).hash == hash,
        FetchState::<B>::start(hash).request.header,
        FetchState::<B>::start(hash).request.body,
        FetchState::<B>::start(hash).header is None,
        FetchState::<B>::start(hash).body is None,
        FetchState::<B>::start(hash).wf(),
{
}

/// A poll can start at any time, and a request in flight can be polled as long as the poll has
/// budget left.
pub proof fn law_polls_are_accepted<B>(state: FetchState<B>, event: RequestEvent<B>)
    ensures
        state.accepts(event) <==> (event is Start || (state.budget > 0 && ((event is Header
            && state.request.header) || (event is Body && state.request.body)))),
{
}

/// A poll waits only for requests that it found pending. It ends so exactly when the body request,
/// or the header request while no body request is in flight, was found pending; then nothing has
/// changed and nothing is asked of the client. After anything else, a failed response included, the
/// poll is done, has spent its budget, or goes on with a request that is in flight: the header
/// request if that is, else the body request. The body request is next only if no header request is
/// in flight or that was just found pending.
pub proof fn law_poll_waits_only_for_pending_requests<B>(
    state: FetchState<B>,
    event: RequestEvent<B>,
    valid: bool,
)
    requires
        state.accepts(event),
        state.header is None <==> state.request.header,
        state.body is None <==> state.request.body,
    ensures
        ({
            let (next, actions, step) = state.after(event, valid);
            &&& step is Pending <==> event == RequestEvent::<B>::Body(Poll::Pending) || (event
                == RequestEvent::<B>::Header(Poll::Pending) && !state.request.body)
            &&& step is Pending ==> next == state && actions.len() == 0 && (next.request.header
                || next.request.body)
            &&& step is PollHeader ==> next.request.header
            &&& step is PollBody ==> next.request.body && (!next.request.header || event
                == RequestEvent::<B>::Header(Poll::Pending))
            &&& !(event == RequestEvent::<B>::Header(Poll::Pending)) && !(event
                == RequestEvent::<B>::Body(Poll::Pending)) ==> {
                ||| step is Ready
                ||| step is Yield && next.budget == 0
                ||| step is PollHeader && next.request.header
                ||| step is PollBody && next.request.body && !next.request.header
            }
            &&& event == RequestEvent::<B>::Header(Poll::Pending) && state.request.body ==> next
                == state && actions.len() == 0 && step is PollBody
        }),
{
}

/// A download fetches exactly the parts that are missing, until the block was handed out and nothing
/// is there or requested any more.
pub proof fn law_download_fetches_what_is_missing<B>(state: FetchState<B>)
    ensures
        state.is_fetching() <==> (state.header is None <==> state.request.header) && (
        state.body is None <==> state.request.body),
        state.is_finished() <==> state.header is None && state.body is None
            && !state.request.header && !state.request.body,
        state.wf() ==> state.is_fetching() || state.is_finished(),
{
}

/// A download whose block was handed out does nothing any more.
pub proof fn law_finished_download_does_nothing<B>(state: FetchState<B>, valid: bool)
    requires
        state.header is None,
        state.body is None,
        !state.request.header,
        !state.request.body,
    ensures
        state.after(RequestEvent::Start, valid).0 == (FetchState { budget: 4, ..state }),
        state.after(RequestEvent::Start, valid).1 =~= Seq::empty(),
        state.after(RequestEvent::Start, valid).2 is Pending,
{
}

/// When a poll starts and a part of the block is missing, the poll goes on with the request for it,
/// the header first, with a budget of four responses. Nothing else changes.
pub proof fn law_poll_starts_with_the_missing_part<B>(state: FetchState<B>, valid: bool)
    requires
        state.header is None <==> state.request.header,
        state.body is None <==> state.request.body,
        state.header is None || state.body is None,
    ensures
        state.pair_in(RequestEvent::Start) is None,
        state.after(RequestEvent::Start, valid).0 == (FetchState { budget: 4, ..state }),
        state.after(RequestEvent::Start, valid).1 =~= Seq::empty(),
        state.header is None ==> state.after(RequestEvent::Start, valid).2 is PollHeader,
        state.header is Some ==> state.after(RequestEvent::Start, valid).2 is PollBody,
{
}

/// When a poll starts and both parts are there, the block of the two is handed out if its body is
/// validated. If the body came before the header, the consensus rules are asked about it first: if
/// they refuse it, its peer is reported, the body is requested again and the header stays.
pub proof fn law_poll_starts_with_the_whole_block<B>(
    state: FetchState<B>,
    header: SealedHeader,
    valid: bool,
)
    requires
        state.header == Some(header),
        state.body is Some,
        !state.request.header,
        !state.request.body,
    ensures
        ({
            let (next, actions, step) = state.after(RequestEvent::Start, valid);
            match state.body->0 {
                BodyResponse::Validated(body) => {
                    &&& state.pair_in(RequestEvent::Start) is None
                    &&& next == (FetchState { header: None, body: None, budget: 4, ..state })
                    &&& actions =~= Seq::empty()
                    &&& step == PollStep::Ready(SealedBlock { header, body })
                },
                BodyResponse::PendingValidation(response) => {
                    &&& state.pair_in(RequestEvent::Start) == Some((response.data, header))
                    &&& valid ==> {
                        &&& next == (FetchState { header: None, body: None, budget: 4, ..state })
                        &&& actions =~= Seq::empty()
                        &&& step == PollStep::Ready(SealedBlock { header, body: response.data })
                    }
                    &&& !valid ==> {
                        &&& next == (FetchState {
                            request: FullBlockRequest { header: false, body: true },
                            body: None,
                            budget: 4,
                            ..state
                        })
                        &&& actions =~= seq![
                            ClientAction::ReportBadMessage(response.peer_id),
                            ClientAction::GetBlockBody(state.hash),
                        ]
                        &&& step is PollBody
                    }
                },
            }
        }),
{
}

/// A header with the requested hash that comes before the body is kept, and the poll goes on with
/// the body request.
pub proof fn law_first_header_is_kept<B>(
    state: FetchState<B>,
    peer_id: PeerId,
    header: Header,
    valid: bool,
)
    requires
        state.header is None && state.request.header,
        state.body is None && state.request.body,
        state.budget > 0,
        header.seal() == state.hash,
    ensures
        ({
            let event = RequestEvent::<B>::Header(
                Poll::Ready(Ok(WithPeerId { peer_id, data: Some(header) })),
            );
            let (next, actions, step) = state.after(event, valid);
            &&& state.pair_in(event) is None
            &&& next == (FetchState {
                header: Some(SealedHeader { header, hash: state.hash }),
                request: FullBlockRequest { header: false, body: true },
                budget: state.budget - 1,
                ..state
            })
            &&& actions =~= Seq::empty()
            &&& state.budget > 1 ==> step is PollBody
            &&& state.budget == 1 ==> step is Yield
        }),
{
}

/// A header with the requested hash that comes after a body has the consensus rules asked about
/// that body, unless the budget is spent. If they refuse it, the header stays, the peer that sent
/// the body is reported, and the body is requested and polled again.
pub proof fn law_late_header_can_refuse_the_body<B>(
    state: FetchState<B>,
    peer_id: PeerId,
    header: Header,
    response: WithPeerId<B>,
)
    requires
        state.header is None && state.request.header,
        state.body == Some(BodyResponse::PendingValidation(response)) && !state.request.body,
        state.budget > 0,
        header.seal() == state.hash,
    ensures
        ({
            let sealed_header = SealedHeader { header, hash: state.hash };
            let event = RequestEvent::<B>::Header(
                Poll::Ready(Ok(WithPeerId { peer_id, data: Some(header) })),
            );
            let (next, actions, step) = state.after(event, false);
            &&& state.budget > 1 ==> {
                &&& state.pair_in(event) == Some((response.data, sealed_header))
                &&& next == (FetchState {
                    header: Some(sealed_header),
                    body: None,
                    request: FullBlockRequest { header: false, body: true },
                    budget: state.budget - 1,
                    ..state
                })
                &&& actions =~= seq![
                    ClientAction::ReportBadMessage(response.peer_id),
                    ClientAction::GetBlockBody(state.hash),
                ]
                &&& step is PollBody
            }
            &&& state.budget == 1 ==> {
                &&& state.pair_in(event) is None
                &&& next == (FetchState {
                    header: Some(sealed_header),
                    request: FullBlockRequest { header: false, body: false },
                    budget: 0,
                    ..state
                })
                &&& actions =~= Seq::empty()
                &&& step is Yield
            }
        }),
{
}

/// A header response without the requested header leaves everything as it was, but for the budget:
/// the header is requested again, and the same poll goes on with that request. Its peer is reported
/// exactly if it sent another header.
pub proof fn law_missing_header_is_polled_again<B>(
    state: FetchState<B>,
    result: Result<WithPeerId<Option<Header>>, RequestError>,
    valid: bool,
)
    requires
        state.header is None && state.request.header,
        state.body is None <==> state.request.body,
        state.budget > 0,
        result matches Ok(WithPeerId { peer_id, data: Some(header) }) ==> header.seal()
            != state.hash,
    ensures
        ({
            let event = RequestEvent::<B>::Header(Poll::Ready(result));
            let (next, actions, step) = state.after(event, valid);
            &&& state.pair_in(event) is None
            &&& next == (FetchState { budget: state.budget - 1, ..state })
            &&& match result {
                Ok(WithPeerId { peer_id, data: Some(header) }) => actions =~= seq![
                    ClientAction::ReportBadMessage(peer_id),
                    ClientAction::GetHeader(state.hash),
                ],
                _ => actions =~= seq![ClientAction::GetHeader(state.hash)],
            }
            &&& state.budget > 1 ==> step is PollHeader
            &&& state.budget == 1 ==> step is Yield
        }),
{
}

/// A body that comes before the header is kept for later with its peer, and the poll goes on with
/// the header request. The consensus rules are not asked.
pub proof fn law_early_body_is_kept<B>(
    state: FetchState<B>,
    peer_id: PeerId,
    body: B,
    valid: bool,
)
    requires
        state.header is None && state.request.header,
        state.body is None && state.request.body,
        state.budget > 0,
    ensures
        ({
            let event = RequestEvent::<B>::Body(
                Poll::Ready(Ok(WithPeerId { peer_id, data: Some(body) })),
            );
            let (next, actions, step) = state.after(event, valid);
            &&& state.pair_in(event) is None
            &&& next == (FetchState {
                body: Some(BodyResponse::PendingValidation(WithPeerId { peer_id, data: body })),
                request: FullBlockRequest { header: true, body: false },
                budget: state.budget - 1,
                ..state
            })
            &&& actions =~= Seq::empty()
            &&& state.budget > 1 ==> step is PollHeader
            &&& state.budget == 1 ==> step is Yield
        }),
{
}

/// A body that comes after the header has the consensus rules asked about it, whatever budget is
/// left. If they refuse it, everything stays as it was but for the budget: its peer is reported,
/// the body is requested again, and the same poll goes on with that request. If they accept it and
/// the budget is spent, it is kept as validated.
pub proof fn law_late_body_is_judged<B>(
    state: FetchState<B>,
    header: SealedHeader,
    peer_id: PeerId,
    body: B,
)
    requires
        state.header == Some(header) && !state.request.header,
        state.body is None && state.request.body,
        state.budget > 0,
    ensures
        ({
            let event = RequestEvent::<B>::Body(
                Poll::Ready(Ok(WithPeerId { peer_id, data: Some(body) })),
            );
            let (refused, actions, step) = state.after(event, false);
            let (accepted, no_actions, accepted_step) = state.after(event, true);
            &&& state.pair_in(event) == Some((body, header))
            &&& refused == (FetchState { budget: state.budget - 1, ..state })
            &&& actions =~= seq![
                ClientAction::ReportBadMessage(peer_id),
                ClientAction::GetBlockBody(state.hash),
            ]
            &&& state.budget > 1 ==> step is PollBody
            &&& state.budget == 1 ==> step is Yield
            &&& no_actions =~= Seq::empty()
            &&& state.budget > 1 ==> accepted_step == PollStep::Ready(SealedBlock { header, body })
            &&& state.budget == 1 ==> accepted_step is Yield && accepted == (FetchState {
                body: Some(BodyResponse::Validated(body)),
                request: FullBlockRequest { header: false, body: false },
                budget: 0,
                ..state
            })
        }),
{
}

/// A body response without a body leaves everything as it was, but for the budget: the body is
/// requested again, nobody is reported, and the same poll goes on with a request in flight, the
/// header request first.
pub proof fn law_missing_body_is_polled_again<B>(
    state: FetchState<B>,
    result: Result<WithPeerId<Option<B>>, RequestError>,
    valid: bool,
)
    requires
        state.header is None <==> state.request.header,
        state.body is None && state.request.body,
        state.budget > 0,
        result matches Ok(response) ==> response.data is None,
    ensures
        ({
            let event = RequestEvent::<B>::Body(Poll::Ready(result));
            let (next, actions, step) = state.after(event, valid);
            &&& state.pair_in(event) is None
            &&& next == (FetchState { budget: state.budget - 1, ..state })
            &&& actions =~= seq![ClientAction::GetBlockBody(state.hash)]
            &&& state.budget > 1 && state.header is None ==> step is PollHeader
            &&& state.budget > 1 && state.header is Some ==> step is PollBody
            &&& state.budget == 1 ==> step is Yield
        }),
{
}

/// A body is kept until the header is there; when the header is there, it is kept exactly if the
/// consensus rules accept it for that header, and its peer is reported exactly if they do not.
pub proof fn law_body_is_stored_if_it_can_belong<B>(
    state: FetchState<B>,
    response: WithPeerId<B>,
    valid: bool,
)
    ensures
        ({
            let (next, actions) = state.on_block_response(response, valid);
            &&& next.hash == state.hash
            &&& next.request == state.request
            &&& next.header == state.header
            &&& next.budget == state.budget
            &&& state.header is None ==> next.body == Some(
                BodyResponse::PendingValidation(response),
            ) && actions =~= Seq::empty() && state.pair_with(response.data) is None
            &&& state.header matches Some(header) ==> {
                &&& state.pair_with(response.data) == Some((response.data, header))
                &&& valid ==> next.body == Some(BodyResponse::Validated(response.data))
                    && actions =~= Seq::empty()
                &&& !valid ==> next.body == state.body && actions =~= seq![
                    ClientAction::ReportBadMessage(response.peer_id),
                ]
            }
        }),
{
}

/// The block is taken exactly if both parts are there and the body is validated or accepted; it
/// consists of these two. Otherwise the header stays, and a refused body is dropped, reported and
/// requested again.
pub proof fn law_block_is_taken_if_it_is_whole<B>(state: FetchState<B>, valid: bool)
    ensures
        ({
            let (next, actions, block) = state.take_block(valid);
            match (state.header, state.body) {
                (Some(header), Some(BodyResponse::Validated(body))) => {
                    &&& state.pair_to_take() is None
                    &&& block == Some(SealedBlock { header, body })
                    &&& next == (FetchState { header: None, body: None, ..state })
                    &&& actions =~= Seq::empty()
                },
                (Some(header), Some(BodyResponse::PendingValidation(response))) => {
                    &&& state.pair_to_take() == Some((response.data, header))
                    &&& valid ==> {
                        &&& block == Some(SealedBlock { header, body: response.data })
                        &&& next == (FetchState { header: None, body: None, ..state })
                        &&& actions =~= Seq::empty()
                    }
                    &&& !valid ==> {
                        &&& block is None
                        &&& next == (FetchState {
                            body: None,
                            request: FullBlockRequest { header: state.request.header, body: true },
                            ..state
                        })
                        &&& actions =~= seq![
                            ClientAction::ReportBadMessage(response.peer_id),
                            ClientAction::GetBlockBody(state.hash),
                        ]
                    }
                },
                _ => {
                    &&& state.pair_to_take() is None
                    &&& block is None
                    &&& next == state
                    &&& actions =~= Seq::empty()
                },
            }
        }),
{
}

/// A header response gives the download the header exactly if it has the requested hash; another
/// header is reported. Without a header, the download requests it, and only then. Nothing else
/// changes.
pub proof fn law_header_response_is_handled<B>(
    state: FetchState<B>,
    result: Result<WithPeerId<Option<Header>>, RequestError>,
    valid: bool,
)
    ensures
        ({
            let (next, actions) = state.on_response(ResponseResult::Header(result), valid);
            let asked = if next.header is None {
                seq![ClientAction::GetHeader(state.hash)]
            } else {
                Seq::empty()
            };
            &&& state.pair_for(ResponseResult::Header(result)) is None
            &&& next.hash == state.hash
            &&& next.body == state.body
            &&& next.budget == state.budget
            &&& next.request.body == state.request.body
            &&& next.request.header <==> state.request.header || next.header is None
            &&& match result {
                Ok(WithPeerId { peer_id, data: Some(header) }) => {
                    if header.seal() == state.hash {
                        &&& next.header == Some(SealedHeader { header, hash: state.hash })
                        &&& actions =~= Seq::empty()
                    } else {
                        &&& next.header == state.header
                        &&& actions =~= seq![ClientAction::ReportBadMessage(peer_id)] + asked
                    }
                },
                _ => next.header == state.header && actions =~= asked,
            }
        }),
{
}

/// A body response gives the download a body exactly if it brings one and the consensus rules do
/// not refuse it for the header that is there; a refused body is reported. Without a body, the
/// download requests it, and only then. Nothing else changes.
pub proof fn law_body_response_is_handled<B>(
    state: FetchState<B>,
    result: Result<WithPeerId<Option<B>>, RequestError>,
    valid: bool,
)
    ensures
        ({
            let (next, actions) = state.on_response(ResponseResult::Body(result), valid);
            let asked = if next.body is None {
                seq![ClientAction::GetBlockBody(state.hash)]
            } else {
                Seq::empty()
            };
            &&& next.hash == state.hash
            &&& next.header == state.header
            &&& next.budget == state.budget
            &&& next.request.header == state.request.header
            &&& next.request.body <==> state.request.body || next.body is None
            &&& match (result, state.header) {
                (Ok(WithPeerId { peer_id, data: Some(body) }), Some(header)) => {
                    &&& state.pair_for(ResponseResult::Body(result)) == Some((body, header))
                    &&& valid ==> next.body == Some(BodyResponse::Validated(body)) && actions
                        =~= Seq::empty()
                    &&& !valid ==> next.body == state.body && actions =~= seq![
                        ClientAction::ReportBadMessage(peer_id),
                    ] + asked
                },
                (Ok(WithPeerId { peer_id, data: Some(body) }), None) => {
                    &&& state.pair_for(ResponseResult::Body(result)) is None
                    &&& next.body == Some(
                        BodyResponse::PendingValidation(WithPeerId { peer_id, data: body }),
                    )
                    &&& actions =~= Seq::empty()
                },
                _ => {
                    &&& state.pair_for(ResponseResult::Body(result)) is None
                    &&& next.body == state.body
                    &&& actions =~= asked
                },
            }
        }),
{
}

/// The answer that counts for a body and a header is the outcome of a call of the consensus rules
/// on exactly these two.
pub proof fn law_pair_is_judged_by_a_call<B, C: Consensus<B>>(
    consensus: &C,
    body: B,
    header: SealedHeader,
    valid: bool,
)
    ensures
        crate::full_block::judges(consensus, Some((body, header)), valid) <==> exists|
            result: Result<(), C::Error>,
        | #[trigger]
            call_ensures(C::validate_body_against_header, (consensus, &body, &header), result)
                && valid == result is Ok,
{
}

/// A body that was not validated before is handed out in a block, or counts as validated, only
/// after the consensus rules returned `Ok` for it and the header that it stands with. So a body that
/// they can only refuse never makes it into a block.
pub proof fn law_block_needs_an_ok<B, C: Consensus<B>>(
    consensus: &C,
    state: FetchState<B>,
    event: RequestEvent<B>,
    valid: bool,
    body: B,
    header: SealedHeader,
)
    requires
        state.wf(),
        state.accepts(event),
        crate::full_block::judges(consensus, state.pair_in(event), valid),
        state.after(event, valid).2 == PollStep::Ready(SealedBlock { header, body }) || (
        state.after(event, valid).0.header == Some(header) && state.after(event, valid).0.body
            == Some(BodyResponse::Validated(body))),
        !(state.header == Some(header) && state.body == Some(BodyResponse::Validated(body))),
    ensures
        exists|result: Result<(), C::Error>| #[trigger]
            call_ensures(C::validate_body_against_header, (consensus, &body, &header), result)
                && result is Ok,
{
}

/// A peer is reported only for what it sent: for a header with another hash than the requested one,
/// or for a body for which the consensus rules returned an error.
pub proof fn law_report_needs_a_fault<B, C: Consensus<B>>(
    consensus: &C,
    state: FetchState<B>,
    event: RequestEvent<B>,
    valid: bool,
    peer_id: PeerId,
)
    requires
        state.wf(),
        state.accepts(event),
        crate::full_block::judges(consensus, state.pair_in(event), valid),
        state.after(event, valid).1.contains(ClientAction::ReportBadMessage(peer_id)),
    ensures
        (event matches RequestEvent::Header(Poll::Ready(Ok(response))) && response.peer_id
            == peer_id && response.data is Some && response.data->0.seal() != state.hash) || ((
        event matches RequestEvent::Body(Poll::Ready(Ok(response))) && response.peer_id == peer_id
            && response.data is Some) || (state.body matches Some(
            BodyResponse::PendingValidation(response),
        ) && response.peer_id == peer_id)) && exists|
            body: B,
            header: SealedHeader,
            result: Result<(), C::Error>,
        | #[trigger]
            call_ensures(C::validate_body_against_header, (consensus, &body, &header), result)
                && result is Err && header.hash == state.hash,
{
    let (next, actions, step) = state.after(event, valid);
    let report = ClientAction::ReportBadMessage(peer_id);
    assert(actions.len() <= 2);
    if actions.len() > 0 && actions[0] != report {
        assert(actions.len() == 2 ==> !(actions[1] is ReportBadMessage));
    }
}

} // verus!
