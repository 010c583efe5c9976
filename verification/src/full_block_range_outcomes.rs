//! What each event makes of a range download, said of the fields of the download, the response and
//! the outcome.
use vstd::prelude::*;

use crate::consensus::{Consensus, HeaderValidator};
use crate::full_block_range::{
    NewRequests, RangeEvent, RangeState, RangeStep, RangeStepView, PIPELINE_BATCH_SIZE,
};
use crate::primitives::{Header, PeerId, SealedBlock, SealedHeader, WithPeerId, B256};
use crate::request::{BlockHashOrNumber, HeadersDirection, Poll, RequestError};

verus! {

/// The mathematical values of steps and requests hold what the steps and requests hold.
pub proof fn law_views_hold_what_is_there<B>(step: RangeStep<B>, requests: NewRequests)
    ensures
        step@ is PollHeaders <==> step is PollHeaders,
        step@ is PollBodies <==> step is PollBodies,
        step@ is Pending <==> step is Pending,
        step matches RangeStep::Ready(blocks) ==> step@ == RangeStepView::Ready(blocks@),
        requests@.headers == requests.headers,
        requests@.bodies is None <==> requests.bodies is None,
        requests.bodies matches Some(hashes) ==> requests@.bodies == Some(hashes@),
{
}

/// A download starts with the requested hash and count, with nothing there and nothing requested.
pub proof fn law_range_starts_with_nothing<B>(hash: B256, count: u64)
    ensures
        RangeState::<B>::start(hash, count).start_hash == hash,
        RangeState::<B>::start(hash, count).next_request_hash == hash,
        RangeState::<B>::start(hash, count).total_to_download == count,
        RangeState::<B>::start(hash, count).headers_downloaded == 0,
        !RangeState::<B>::start(hash, count).headers_request,
        !RangeState::<B>::start(hash, count).bodies_request,
        RangeState::<B>::start(hash, count).pending_headers.len() == 0,
        RangeState::<B>::start(hash, count).in_flight_bodies.len() == 0,
        RangeState::<B>::start(hash, count).downloaded_blocks.len() == 0,
        RangeState::<B>::start(hash, count).wf(),
{
}

/// A poll can start at any time, and each request can be polled as long as it is in flight.
pub proof fn law_range_polls_are_accepted<B>(state: RangeState<B>, event: RangeEvent<B>)
    ensures
        state.accepts(event) <==> event is Start || (event is Headers && state.headers_request) || (
        event is Bodies && state.bodies_request),
{
}

/// A download is complete as soon as there are as many blocks as requested. It is finished once a
/// range that is not empty has all of its headers and none of them is left.
pub proof fn law_range_is_complete_and_then_finished<B>(state: RangeState<B>)
    ensures
        state.is_complete() <==> state.downloaded_blocks.len() >= state.total_to_download,
        state.is_finished() <==> 0 < state.total_to_download == state.headers_downloaded
            && state.pending_headers.len() == 0 && state.in_flight_bodies.len() == 0
            && state.downloaded_blocks.len() == 0,
{
}

/// A headers request is made exactly if none is in flight and headers are missing. It asks for as
/// many as are missing, 64 at most, downwards from the hash that comes next.
pub proof fn law_headers_request_asks_for_the_missing<B>(state: RangeState<B>)
    requires
        state.headers_downloaded <= state.total_to_download,
    ensures
        PIPELINE_BATCH_SIZE == 64,
        match state.new_requests().headers {
            Some(request) => {
                &&& !state.headers_request
                &&& state.headers_downloaded < state.total_to_download
                &&& request.start == BlockHashOrNumber::Hash(state.next_request_hash)
                &&& request.direction == HeadersDirection::Falling
                &&& state.total_to_download - state.headers_downloaded <= 64 ==> request.limit
                    == state.total_to_download - state.headers_downloaded
                &&& state.total_to_download - state.headers_downloaded > 64 ==> request.limit == 64
            },
            None => state.headers_request || state.headers_downloaded == state.total_to_download,
        },
        state.with_new_requests().headers_request <==> state.headers_request
            || state.headers_downloaded < state.total_to_download,
{
}

/// A bodies request is made exactly if none is in flight and headers wait for their bodies. It asks
/// for the bodies of the headers that wait longest, 64 at most, by their hashes and in their order;
/// these headers are then in flight, and the others still wait in their order. Making requests
/// changes nothing else.
pub proof fn law_bodies_request_asks_for_the_waiting<B>(state: RangeState<B>)
    requires
        state.in_flight_bodies.len() == 0 <==> !state.bodies_request,
    ensures
        ({
            let next = state.with_new_requests();
            &&& state.new_requests().bodies is Some <==> !state.bodies_request
                && state.pending_headers.len() > 0
            &&& next.bodies_request <==> state.bodies_request || state.pending_headers.len() > 0
            &&& match state.new_requests().bodies {
                Some(hashes) => {
                    &&& state.pending_headers.len() <= 64 ==> hashes.len()
                        == state.pending_headers.len()
                    &&& state.pending_headers.len() > 64 ==> hashes.len() == 64
                    &&& next.in_flight_bodies.len() == hashes.len()
                    &&& forall|i: int|
                        #![trigger hashes[i]]
                        #![trigger next.in_flight_bodies[i]]
                        0 <= i < hashes.len() ==> next.in_flight_bodies[i]
                            == state.pending_headers[i] && hashes[i]
                            == state.pending_headers[i].hash
                    &&& next.pending_headers.len() == state.pending_headers.len() - hashes.len()
                    &&& forall|i: int|
                        0 <= i < next.pending_headers.len() ==> #[trigger] next.pending_headers[i]
                            == state.pending_headers[i + hashes.len()]
                },
                None => {
                    &&& next.in_flight_bodies == state.in_flight_bodies
                    &&& next.pending_headers == state.pending_headers
                },
            }
            &&& next.total_to_download == state.total_to_download
            &&& next.start_hash == state.start_hash
            &&& next.start_number == state.start_number
            &&& next.next_request_hash == state.next_request_hash
            &&& next.headers_downloaded == state.headers_downloaded
            &&& next.downloaded_blocks == state.downloaded_blocks
            &&& next.progress == state.progress
        }),
{
}

/// The headers of a response can belong to the range exactly if, in the first response, the first of
/// them has the requested hash; if there are no more of them than are missing; and if none has a
/// higher number than the starting header, nor the same number without being the starting header.
/// They are then the same headers, each with its own hash, and their numbers fall.
pub proof fn law_headers_that_can_belong<B>(state: RangeState<B>, headers: Seq<Header>)
    requires
        state.headers_downloaded <= state.total_to_download,
    ensures
        ({
            let top = if state.headers_downloaded == 0 {
                headers[0].number
            } else {
                state.start_number
            };
            &&& state.candidate(headers) is Some <==> {
                &&& state.headers_downloaded == 0 ==> headers.len() > 0 && headers[0].seal()
                    == state.start_hash
                &&& state.headers_downloaded + headers.len() <= state.total_to_download
                &&& forall|i: int|
                    0 <= i < headers.len() ==> (#[trigger] headers[i]).number <= top && (
                    headers[i].number == top ==> headers[i].seal() == state.start_hash)
            }
            &&& state.candidate(headers) matches Some(falling) ==> {
                &&& falling.len() == headers.len()
                &&& falling.to_multiset() == Seq::new(
                    headers.len(),
                    |i: int| SealedHeader { header: headers[i], hash: headers[i].seal() },
                ).to_multiset()
                &&& forall|i: int|
                    0 <= i < falling.len() ==> (#[trigger] falling[i]).hash
                        == falling[i].header.seal()
                &&& forall|i: int, j: int|
                    0 <= i <= j < falling.len() ==> (#[trigger] falling[i]).header.number >= (
                    #[trigger] falling[j]).header.number
            }
        }),
{
    let all = crate::full_block_range::all_sealed(headers);
    let plain = Seq::new(
        headers.len(),
        |i: int| SealedHeader { header: headers[i], hash: headers[i].seal() },
    );
    assert(all =~= plain);
    crate::order::law_headers_fall_by_number(all);
    crate::order::law_falling_permutes(all);
    let falling = crate::order::falling(all);
    assert forall|i: int| 0 <= i < falling.len() implies (#[trigger] falling[i]).hash
        == falling[i].header.seal() by {
        assert(falling.contains(falling[i]));
        let k = choose|k: int| 0 <= k < all.len() && all[k] == falling[i];
        assert(all[k] == plain[k]);
    }
    assert forall|i: int| 0 <= i < headers.len() implies (#[trigger] all[i]).header == headers[i]
        && all[i].hash == headers[i].seal() by {}
    if state.can_take(all) {
        assert forall|i: int| 0 <= i < headers.len() implies {
            let top = if state.headers_downloaded == 0 {
                headers[0].number
            } else {
                state.start_number
            };
            (#[trigger] headers[i]).number <= top && (headers[i].number == top
                ==> headers[i].seal() == state.start_hash)
        } by {
            assert(state.with_start(all).fits_range(all[i]));
        }
    }
}

/// Headers that can belong to the range and are accepted go to the end of the queue, highest first;
/// they count as downloaded, the next request goes on with the parent of the lowest, and nobody is
/// reported. Otherwise nothing is taken in, and the peer is reported. The request is done either
/// way, and nothing else changes.
pub proof fn law_headers_response_is_taken_or_reported<B>(
    state: RangeState<B>,
    response: WithPeerId<Vec<Header>>,
    valid: bool,
)
    requires
        state.headers_downloaded <= state.total_to_download,
    ensures
        ({
            let (next, reports) = state.on_headers_response(response, valid);
            match state.candidate(response.data@) {
                Some(falling) if valid => {
                    &&& reports =~= Seq::empty()
                    &&& next.headers_downloaded == state.headers_downloaded + response.data@.len()
                    &&& next.pending_headers =~= state.pending_headers + falling
                    &&& response.data@.len() > 0 ==> next.next_request_hash
                        == falling.last().header.parent_hash
                    &&& response.data@.len() == 0 ==> next.next_request_hash
                        == state.next_request_hash
                    &&& state.headers_downloaded == 0 ==> next.start_number
                        == response.data@[0].number
                    &&& state.headers_downloaded > 0 ==> next.start_number == state.start_number
                },
                _ => {
                    &&& reports =~= seq![response.peer_id]
                    &&& next.headers_downloaded == state.headers_downloaded
                    &&& next.pending_headers == state.pending_headers
                    &&& next.next_request_hash == state.next_request_hash
                    &&& next.start_number == state.start_number
                },
            }
        }),
        ({
            let next = state.on_headers_response(response, valid).0;
            &&& !next.headers_request
            &&& next.total_to_download == state.total_to_download
            &&& next.start_hash == state.start_hash
            &&& next.bodies_request == state.bodies_request
            &&& next.in_flight_bodies == state.in_flight_bodies
            &&& next.downloaded_blocks == state.downloaded_blocks
            &&& next.progress == state.progress
        }),
{
    law_headers_that_can_belong(state, response.data@);
    if state.candidate(response.data@) is Some {
        crate::full_block_range_laws::law_sorting_keeps_the_start(
            state,
            crate::full_block_range::all_sealed(response.data@),
        );
    }
}

/// Queueing again puts the headers whose bodies were requested behind those that wait, in their
/// order. The bodies request is done, and nothing else changes.
pub proof fn law_headers_are_queued_again<B>(state: RangeState<B>)
    ensures
        state.requeued() == (RangeState {
            bodies_request: false,
            pending_headers: state.pending_headers + state.in_flight_bodies,
            in_flight_bodies: Seq::empty(),
            ..state
        }),
{
}

proof fn lemma_counts_step(valid: Seq<bool>, k: int)
    requires
        0 <= k < valid.len(),
    ensures
        valid.take(k + 1).to_multiset() == valid.take(k).to_multiset().insert(valid[k]),
{
    broadcast use vstd::seq_lib::group_to_multiset_ensures;

    assert(valid.take(k + 1) =~= valid.take(k).push(valid[k]));
}

proof fn lemma_bodies_by_count<B>(
    headers: Seq<SealedHeader>,
    bodies: Seq<B>,
    valid: Seq<bool>,
)
    requires
        headers.len() <= valid.len(),
    ensures
        ({
            let again = crate::full_block_range::refused(headers, valid);
            let blocks = crate::full_block_range::assembled(headers, bodies, valid);
            let n = headers.len() as int;
            &&& again.len() == valid.take(n).to_multiset().count(false)
            &&& blocks.len() == valid.take(n).to_multiset().count(true)
            &&& forall|k: int|
                0 <= k < n && !(#[trigger] valid[k]) ==> valid.take(k).to_multiset().count(false) < again.len()
                    && again[valid.take(k).to_multiset().count(false) as int]
                    == headers[k]
            &&& forall|k: int|
                0 <= k < n && #[trigger] valid[k] ==> valid.take(k).to_multiset().count(true) < blocks.len()
                    && blocks[valid.take(k).to_multiset().count(true) as int] == (SealedBlock {
                    header: headers[k],
                    body: bodies[k],
                })
        }),
    decreases headers.len(),
{
    broadcast use vstd::seq_lib::group_to_multiset_ensures;

    if headers.len() == 0 {
        assert(!valid.take(0).contains(true));
        assert(!valid.take(0).contains(false));
    } else {
        let front = headers.drop_last();
        let n = headers.len() - 1;
        lemma_bodies_by_count(front, bodies, valid);
        lemma_counts_step(valid, n);
        let again = crate::full_block_range::refused(headers, valid);
        let blocks = crate::full_block_range::assembled(headers, bodies, valid);
        assert forall|k: int| 0 <= k < n + 1 && !(#[trigger] valid[k]) implies valid.take(
            k,
        ).to_multiset().count(false) < again.len() && again[valid.take(k).to_multiset().count(
            false,
        ) as int] == headers[k] by {
            if k < n {
                assert(front[k] == headers[k]);
            }
        }
        assert forall|k: int| 0 <= k < n + 1 && #[trigger] valid[k] implies valid.take(k).to_multiset().count(
            true,
        ) < blocks.len() && blocks[valid.take(k).to_multiset().count(true) as int] == (
        SealedBlock { header: headers[k], body: bodies[k] }) by {
            if k < n {
                assert(front[k] == headers[k]);
            }
        }
    }
}

/// A bodies response of the right length: the peer is reported once for each refused body, and for
/// nothing else. Every header keeps its turn: the header of the k-th body is queued again behind
/// those refused before it, if its body is refused, and else makes a block with that body behind
/// those accepted before it. Nothing is in flight any more, and nothing else changes. A poll hands
/// these reports out.
pub proof fn law_bodies_response_is_taken_body_by_body<B>(
    state: RangeState<B>,
    response: WithPeerId<Vec<B>>,
    range_valid: bool,
    valid: Seq<bool>,
)
    requires
        response.data@.len() == state.in_flight_bodies.len() == valid.len(),
    ensures
        ({
            let (next, reports) = state.on_bodies_response(response, valid);
            let queued = state.pending_headers.len() as int;
            let done = state.downloaded_blocks.len() as int;
            &&& state.after(
                RangeEvent::Bodies(Poll::Ready(Ok(response))),
                range_valid,
                valid,
            ).reports =~= reports
            &&& reports.len() == valid.to_multiset().count(false)
            &&& forall|i: int| 0 <= i < reports.len() ==> #[trigger] reports[i] == response.peer_id
            &&& next.pending_headers.len() == queued + valid.to_multiset().count(false)
            &&& forall|i: int|
                0 <= i < queued ==> #[trigger] next.pending_headers[i] == state.pending_headers[i]
            &&& forall|k: int|
                0 <= k < valid.len() && !(#[trigger] valid[k]) ==> next.pending_headers[queued
                    + valid.take(k).to_multiset().count(false)] == state.in_flight_bodies[k]
            &&& next.downloaded_blocks.len() == done + valid.to_multiset().count(true)
            &&& forall|i: int|
                0 <= i < done ==> #[trigger] next.downloaded_blocks[i]
                    == state.downloaded_blocks[i]
            &&& forall|k: int|
                0 <= k < valid.len() && #[trigger] valid[k] ==> next.downloaded_blocks[done
                    + valid.take(k).to_multiset().count(true)] == (SealedBlock {
                    header: state.in_flight_bodies[k],
                    body: response.data@[k],
                })
            &&& !next.bodies_request
            &&& next.in_flight_bodies.len() == 0
            &&& next.total_to_download == state.total_to_download
            &&& next.start_hash == state.start_hash
            &&& next.start_number == state.start_number
            &&& next.headers_request == state.headers_request
            &&& next.next_request_hash == state.next_request_hash
            &&& next.headers_downloaded == state.headers_downloaded
            &&& next.progress == state.progress
        }),
{
    lemma_bodies_by_count(state.in_flight_bodies, response.data@, valid);
    assert(valid.take(valid.len() as int) =~= valid);
    let next = state.on_bodies_response(response, valid).0;
    assert forall|k: int| 0 <= k < valid.len() && !(#[trigger] valid[k]) implies
        next.pending_headers[state.pending_headers.len() as int + valid.take(k).to_multiset().count(
        false,
    )] == state.in_flight_bodies[k] by {}
    assert forall|k: int| 0 <= k < valid.len() && #[trigger] valid[k] implies
        next.downloaded_blocks[state.downloaded_blocks.len() as int + valid.take(k).to_multiset().count(
        true,
    )] == (SealedBlock { header: state.in_flight_bodies[k], body: response.data@[k] }) by {}
}

/// Any refused body has its peer reported, however many of the bodies are refused.
pub proof fn law_refused_body_is_reported<B>(
    state: RangeState<B>,
    response: WithPeerId<Vec<B>>,
    range_valid: bool,
    valid: Seq<bool>,
    k: int,
)
    requires
        response.data@.len() == state.in_flight_bodies.len() == valid.len(),
        0 <= k < valid.len(),
        !valid[k],
    ensures
        state.on_bodies_response(response, valid).1.contains(response.peer_id),
        state.after(
            RangeEvent::Bodies(Poll::Ready(Ok(response))),
            range_valid,
            valid,
        ).reports.contains(response.peer_id),
        state.on_bodies_response(response, valid).0.pending_headers.contains(
            state.in_flight_bodies[k],
        ),
{
    broadcast use vstd::seq_lib::group_to_multiset_ensures;

    law_bodies_response_is_taken_body_by_body(state, response, range_valid, valid);
    let (next, reports) = state.on_bodies_response(response, valid);
    assert(valid.contains(valid[k]));
    assert(valid.to_multiset().count(false) > 0);
    assert(reports[0] == response.peer_id);
    lemma_counts_step(valid, k);
    lemma_count_grows(valid, k + 1);
    assert(next.pending_headers[state.pending_headers.len() as int + valid.take(k).to_multiset().count(
        false,
    )] == state.in_flight_bodies[k]);
}

proof fn lemma_count_grows(valid: Seq<bool>, k: int)
    requires
        0 <= k <= valid.len(),
    ensures
        valid.take(k).to_multiset().count(false) <= valid.to_multiset().count(false),
    decreases valid.len() - k,
{
    if k < valid.len() {
        lemma_counts_step(valid, k);
        lemma_count_grows(valid, k + 1);
    } else {
        assert(valid.take(k) =~= valid);
    }
}

/// A bodies response of the wrong length has its peer reported once, and all of its headers are
/// queued again in their order. No block is assembled.
pub proof fn law_bodies_of_the_wrong_length_are_queued_again<B>(
    state: RangeState<B>,
    response: WithPeerId<Vec<B>>,
    valid: Seq<bool>,
)
    requires
        response.data@.len() != state.in_flight_bodies.len(),
    ensures
        state.on_bodies_response(response, valid).0 == (RangeState {
            bodies_request: false,
            pending_headers: state.pending_headers + state.in_flight_bodies,
            in_flight_bodies: Seq::empty(),
            ..state
        }),
        state.on_bodies_response(response, valid).1 =~= seq![response.peer_id],
{
}

/// The round of a poll that starts hands the blocks out exactly if there are as many as requested:
/// the same blocks, highest number first. Otherwise it makes the requests for which there is
/// capacity, and goes on with the headers request if one is in flight, else with the bodies
/// request. Reports are handed on as they are.
pub proof fn law_round_yields_or_requests<B>(state: RangeState<B>, reports: Seq<PeerId>)
    ensures
        ({
            let outcome = state.round(reports);
            &&& outcome.reports == reports
            &&& outcome.step is Ready <==> state.downloaded_blocks.len() >= state.total_to_download
            &&& match outcome.step {
                RangeStepView::Ready(blocks) => {
                    &&& blocks.len() == state.downloaded_blocks.len()
                    &&& blocks.to_multiset() == state.downloaded_blocks.to_multiset()
                    &&& forall|i: int, j: int|
                        0 <= i <= j < blocks.len() ==> (#[trigger] blocks[i]).header.header.number
                            >= (#[trigger] blocks[j]).header.header.number
                    &&& outcome.requests.headers is None
                    &&& outcome.requests.bodies is None
                    &&& outcome.state == (RangeState { downloaded_blocks: Seq::empty(), ..state })
                },
                _ => {
                    &&& outcome.requests == state.new_requests()
                    &&& outcome.state == (RangeState {
                        progress: false,
                        ..state.with_new_requests()
                    })
                    &&& outcome.step is PollHeaders <==> outcome.state.headers_request
                    &&& outcome.step is PollBodies <==> outcome.state.bodies_request
                        && !outcome.state.headers_request
                },
            }
        }),
{
    crate::order::law_blocks_fall_by_number(state.downloaded_blocks);
}

/// A poll starts with a round, and nobody is reported for it.
pub proof fn law_poll_starts_a_round<B>(
    state: RangeState<B>,
    range_valid: bool,
    valid: Seq<bool>,
)
    ensures
        state.after(RangeEvent::Start, range_valid, valid) == state.round(Seq::empty()),
{
}

/// A headers request that is pending leaves everything as it was; the round goes on with the bodies
/// request if that is in flight, and the poll waits otherwise, unless a response came before in the
/// round.
pub proof fn law_pending_headers_change_nothing<B>(
    state: RangeState<B>,
    range_valid: bool,
    valid: Seq<bool>,
)
    ensures
        ({
            let outcome = state.after(RangeEvent::Headers(Poll::Pending), range_valid, valid);
            &&& outcome.reports =~= Seq::empty()
            &&& state.bodies_request || !state.progress ==> {
                &&& outcome.state == state
                &&& outcome.requests.headers is None
                &&& outcome.requests.bodies is None
                &&& outcome.step is PollBodies <==> state.bodies_request
                &&& outcome.step is Pending <==> !state.bodies_request
            }
            &&& !state.bodies_request && state.progress ==> outcome == state.round(Seq::empty())
        }),
{
}

/// A bodies request that is pending ends the round: if the headers request was answered in it, the
/// next round starts, and else the poll waits with everything as it was.
pub proof fn law_pending_bodies_end_the_round<B>(
    state: RangeState<B>,
    range_valid: bool,
    valid: Seq<bool>,
)
    ensures
        ({
            let outcome = state.after(RangeEvent::Bodies(Poll::Pending), range_valid, valid);
            &&& outcome.reports =~= Seq::empty()
            &&& state.progress ==> outcome == state.round(Seq::empty())
            &&& !state.progress ==> {
                &&& outcome.state == state
                &&& outcome.requests.headers is None
                &&& outcome.requests.bodies is None
                &&& outcome.step is Pending
            }
        }),
{
}

/// A headers response, failed or not, is followed by a poll of the bodies request if that is in
/// flight, and that the response came is remembered; otherwise the next round starts at once. A
/// failed request is done, and changes nothing else.
pub proof fn law_headers_response_goes_on<B>(
    state: RangeState<B>,
    result: Result<WithPeerId<Vec<Header>>, RequestError>,
    range_valid: bool,
    valid: Seq<bool>,
)
    ensures
        ({
            let outcome = state.after(
                RangeEvent::Headers(Poll::Ready(result)),
                range_valid,
                valid,
            );
            let (answered, reports) = match result {
                Ok(response) => state.on_headers_response(response, range_valid),
                Err(_) => (RangeState { headers_request: false, ..state }, Seq::empty()),
            };
            let remembered = RangeState { progress: true, ..answered };
            &&& outcome.reports =~= reports
            &&& state.bodies_request ==> {
                &&& outcome.state == remembered
                &&& outcome.requests.headers is None
                &&& outcome.requests.bodies is None
                &&& outcome.step is PollBodies
            }
            &&& !state.bodies_request ==> outcome == remembered.round(reports)
        }),
{
}

/// A bodies response, failed or not, starts the next round at once.
pub proof fn law_bodies_response_goes_on<B>(
    state: RangeState<B>,
    result: Result<WithPeerId<Vec<B>>, RequestError>,
    range_valid: bool,
    valid: Seq<bool>,
)
    ensures
        ({
            let outcome = state.after(RangeEvent::Bodies(Poll::Ready(result)), range_valid, valid);
            let (answered, reports) = match result {
                Ok(response) => state.on_bodies_response(response, valid),
                Err(_) => (
                    RangeState {
                        bodies_request: false,
                        pending_headers: state.pending_headers + state.in_flight_bodies,
                        in_flight_bodies: Seq::empty(),
                        ..state
                    },
                    Seq::empty(),
                ),
            };
            &&& outcome.reports =~= reports
            &&& outcome == (RangeState { progress: true, ..answered }).round(reports)
        }),
{
}

/// A poll waits only when the requests in flight were found pending, in a round in which no response
/// came; then nothing has changed, nobody is reported, and nothing is requested. It waits in that
/// case only: after anything else it is done, or it goes on with a request that is in flight.
pub proof fn law_range_waits_only_for_pending_requests<B>(
    state: RangeState<B>,
    event: RangeEvent<B>,
    range_valid: bool,
    valid: Seq<bool>,
)
    requires
        state.wf(),
        state.accepts(event),
        !state.is_finished(),
    ensures
        ({
            let outcome = state.after(event, range_valid, valid);
            let next = outcome.state;
            &&& outcome.step is Pending <==> !state.progress && (event == RangeEvent::<B>::Bodies(
                Poll::Pending,
            ) || (event == RangeEvent::<B>::Headers(Poll::Pending) && !state.bodies_request))
            &&& outcome.step is Pending ==> {
                &&& next == state
                &&& outcome.reports.len() == 0
                &&& outcome.requests.headers is None
                &&& outcome.requests.bodies is None
            }
            &&& outcome.step is PollHeaders ==> next.headers_request && !(event is Headers
                && state.bodies_request)
            &&& outcome.step is PollBodies ==> next.bodies_request
            &&& outcome.step is PollBodies ==> !next.headers_request || event
                == RangeEvent::<B>::Headers(Poll::Pending)
            &&& event is Headers && state.bodies_request ==> outcome.step is PollBodies
        }),
{
    crate::full_block_range_laws::lemma_handled(state, event, range_valid, valid);
}

/// A request that is made is polled in the same poll: the step after an event that makes a request
/// is the poll of the headers request if one is in flight, and else of the bodies request, whatever
/// was reported and whatever the consensus rules answered.
pub proof fn law_new_requests_are_polled<B>(
    state: RangeState<B>,
    event: RangeEvent<B>,
    range_valid: bool,
    valid: Seq<bool>,
)
    requires
        state.accepts(event),
        state.after(event, range_valid, valid).requests.headers is Some || state.after(
            event,
            range_valid,
            valid,
        ).requests.bodies is Some,
    ensures
        ({
            let outcome = state.after(event, range_valid, valid);
            &&& outcome.requests.headers is Some ==> outcome.state.headers_request
                && outcome.step is PollHeaders
            &&& outcome.requests.bodies is Some ==> outcome.state.bodies_request
            &&& outcome.state.headers_request ==> outcome.step is PollHeaders
            &&& !outcome.state.headers_request ==> outcome.step is PollBodies
        }),
{
}

/// A poll that goes on to the bodies request and finds it pending waits only if no headers request
/// is in flight, or that was found pending just before. If instead a headers response came in the
/// same round, a new round follows, in which missing headers are requested again.
pub proof fn law_poll_waits_for_both_requests<B>(
    state: RangeState<B>,
    event: RangeEvent<B>,
    range_valid: bool,
    valid: Seq<bool>,
)
    requires
        state.wf(),
        state.accepts(event),
        !state.is_finished(),
        state.after(event, range_valid, valid).step is PollBodies,
    ensures
        ({
            let first = state.after(event, range_valid, valid);
            let second = first.state.after(RangeEvent::Bodies(Poll::Pending), range_valid, valid);
            &&& second.step is Pending ==> !second.state.headers_request || event
                == RangeEvent::<B>::Headers(Poll::Pending)
            &&& second.step is Pending ==> second.state.headers_request
                || second.state.headers_downloaded == second.state.total_to_download || event
                == RangeEvent::<B>::Headers(Poll::Pending)
            &&& state.bodies_request ==> (event matches RangeEvent::Headers(Poll::Ready(_)) ==> {
                &&& !(second.step is Pending)
                &&& second.step is Ready || (second.state.headers_request
                    <==> second.state.headers_downloaded < second.state.total_to_download)
            })
        }),
{
    crate::full_block_range_laws::lemma_handled(state, event, range_valid, valid);
}

/// Whenever the poll goes on with another round, everything that is missing is in flight: headers
/// exactly if some are missing, and bodies exactly if headers have none.
pub proof fn law_round_requests_what_is_missing<B>(
    state: RangeState<B>,
    event: RangeEvent<B>,
    range_valid: bool,
    valid: Seq<bool>,
)
    requires
        state.wf(),
        state.accepts(event),
        !state.is_finished(),
        event is Start || event matches RangeEvent::Bodies(Poll::Ready(_)) || (event matches
            RangeEvent::Headers(Poll::Ready(_)) && !state.bodies_request),
        !(state.after(event, range_valid, valid).step is Ready),
    ensures
        ({
            let next = state.after(event, range_valid, valid).state;
            &&& next.headers_request <==> next.headers_downloaded < next.total_to_download
            &&& next.bodies_request <==> next.downloaded_blocks.len() < next.headers_downloaded
            &&& next.downloaded_blocks.len() < next.total_to_download
        }),
{
    crate::full_block_range_laws::lemma_handled(state, event, range_valid, valid);
}

/// The download is done exactly when a round starts with as many blocks as were requested. What it
/// yields are the blocks that were there and those that the last response completed, and nothing
/// else.
pub proof fn law_range_yields_what_was_downloaded<B>(
    state: RangeState<B>,
    event: RangeEvent<B>,
    range_valid: bool,
    valid: Seq<bool>,
    blocks: Seq<SealedBlock<B>>,
)
    requires
        state.accepts(event),
        state.after(event, range_valid, valid).step == RangeStepView::Ready(blocks),
    ensures
        blocks.to_multiset() == (match event {
            RangeEvent::Bodies(Poll::Ready(Ok(response))) => state.on_bodies_response(
                response,
                valid,
            ).0.downloaded_blocks.to_multiset(),
            _ => state.downloaded_blocks.to_multiset(),
        }),
        blocks.len() >= state.total_to_download,
        forall|i: int, j: int|
            0 <= i <= j < blocks.len() ==> (#[trigger] blocks[i]).header.header.number >= (
            #[trigger] blocks[j]).header.header.number,
        state.after(event, range_valid, valid).state.downloaded_blocks.len() == 0,
        state.after(event, range_valid, valid).requests.headers is None,
        state.after(event, range_valid, valid).requests.bodies is None,
{
    let next = crate::full_block_range_laws::handled(state, event, range_valid, valid);
    crate::order::law_blocks_fall_by_number(next.downloaded_blocks);
}

/// Headers are taken in only after the consensus rules returned `Ok` for exactly these headers, in
/// rising order. So headers that they can only refuse are never taken in, however many they are.
pub proof fn law_headers_need_an_ok<B, C: HeaderValidator>(
    consensus: &C,
    state: RangeState<B>,
    response: WithPeerId<Vec<Header>>,
    range_valid: bool,
)
    requires
        state.headers_downloaded <= state.total_to_download,
        crate::full_block_range::judges_headers(
            consensus,
            state.candidate(response.data@),
            range_valid,
        ),
    ensures
        ({
            let (next, reports) = state.on_headers_response(response, range_valid);
            &&& reports.len() == 0 ==> exists|
                rising: &[SealedHeader],
                result: Result<(), C::Error>,
            | #[trigger]
                call_ensures(C::validate_header_range, (consensus, rising), result) && result is Ok
                    && next.pending_headers == state.pending_headers + rising@.reverse()
                    && next.headers_downloaded == state.headers_downloaded + rising@.len()
            &&& reports.len() > 0 ==> next.pending_headers == state.pending_headers
                && next.headers_downloaded == state.headers_downloaded && reports
                =~= seq![response.peer_id]
        }),
{
    law_headers_that_can_belong(state, response.data@);
    law_headers_response_is_taken_or_reported(state, response, range_valid);
    if let Some(falling) = state.candidate(response.data@) {
        if range_valid {
            let (rising, result) = choose|
                rising: &[SealedHeader],
                result: Result<(), C::Error>,
            | #[trigger]
                call_ensures(C::validate_header_range, (consensus, rising), result) && rising@
                    == falling.reverse() && range_valid == result is Ok;
            assert(rising@.reverse() =~= falling);
        }
    }
}

/// Headers that can belong to the range are refused only after the consensus rules returned an error
/// for exactly these headers, in rising order. So headers that they can only accept are taken in.
pub proof fn law_refusal_needs_an_error<B, C: HeaderValidator>(
    consensus: &C,
    state: RangeState<B>,
    response: WithPeerId<Vec<Header>>,
    range_valid: bool,
)
    requires
        state.headers_downloaded <= state.total_to_download,
        state.candidate(response.data@) is Some,
        crate::full_block_range::judges_headers(
            consensus,
            state.candidate(response.data@),
            range_valid,
        ),
        state.on_headers_response(response, range_valid).1.len() > 0,
    ensures
        exists|rising: &[SealedHeader], result: Result<(), C::Error>| #[trigger]
            call_ensures(C::validate_header_range, (consensus, rising), result) && result is Err
                && rising@.reverse() == state.candidate(response.data@)->0,
{
    law_headers_response_is_taken_or_reported(state, response, range_valid);
    let falling = state.candidate(response.data@)->0;
    let (rising, result) = choose|rising: &[SealedHeader], result: Result<(), C::Error>| #[trigger]
        call_ensures(C::validate_header_range, (consensus, rising), result) && rising@
            == falling.reverse() && range_valid == result is Ok;
    assert(rising@.reverse() =~= falling);
}

/// In a poll, the answer to the headers of a response is an answer to exactly those headers that can
/// belong to the range, and the peer is reported exactly if they are not taken in.
pub proof fn law_poll_judges_the_headers<B, C: Consensus<B>>(
    consensus: &C,
    state: RangeState<B>,
    response: WithPeerId<Vec<Header>>,
    range_valid: bool,
    valid: Seq<bool>,
)
    requires
        state.headers_downloaded <= state.total_to_download,
        crate::full_block_range::judges_event(
            consensus,
            state,
            RangeEvent::Headers(Poll::Ready(Ok(response))),
            range_valid,
            valid,
        ),
    ensures
        crate::full_block_range::judges_headers(
            consensus,
            state.candidate(response.data@),
            range_valid,
        ),
        ({
            let outcome = state.after(
                RangeEvent::Headers(Poll::Ready(Ok(response))),
                range_valid,
                valid,
            );
            if state.candidate(response.data@) is Some && range_valid {
                &&& outcome.reports =~= Seq::empty()
                &&& outcome.state.headers_downloaded == state.headers_downloaded
                    + response.data@.len()
            } else {
                &&& outcome.reports =~= seq![response.peer_id]
                &&& outcome.state.headers_downloaded == state.headers_downloaded
                &&& outcome.state.next_request_hash == state.next_request_hash
            }
        }),
{
    law_headers_response_is_taken_or_reported(state, response, range_valid);
}

/// The number of downloaded headers changes only by a response to the headers request, and only
/// after the consensus rules returned `Ok` for as many headers. It never falls.
pub proof fn law_progress_needs_an_ok<B, C: Consensus<B>>(
    consensus: &C,
    state: RangeState<B>,
    event: RangeEvent<B>,
    range_valid: bool,
    valid: Seq<bool>,
)
    requires
        state.wf(),
        state.accepts(event),
        crate::full_block_range::judges_event(consensus, state, event, range_valid, valid),
    ensures
        ({
            let next = state.after(event, range_valid, valid).state;
            &&& next.headers_downloaded >= state.headers_downloaded
            &&& next.headers_downloaded > state.headers_downloaded ==> event is Headers && exists|
                rising: &[SealedHeader],
                result: Result<(), C::Error>,
            | #[trigger]
                call_ensures(C::validate_header_range, (consensus, rising), result) && result is Ok
                    && next.headers_downloaded == state.headers_downloaded + rising@.len()
        }),
{
    if let RangeEvent::Headers(Poll::Ready(Ok(response))) = event {
        law_headers_response_is_taken_or_reported(state, response, range_valid);
        law_headers_need_an_ok(consensus, state, response, range_valid);
    }
}

/// The answer to each body of a response is the outcome of a call of the consensus rules on exactly
/// that body and the header at its place.
pub proof fn law_each_body_is_judged_by_a_call<B, C: Consensus<B>>(
    consensus: &C,
    state: RangeState<B>,
    response: WithPeerId<Vec<B>>,
    range_valid: bool,
    valid: Seq<bool>,
    k: int,
)
    requires
        response.data@.len() == state.in_flight_bodies.len(),
        crate::full_block_range::judges_event(
            consensus,
            state,
            RangeEvent::Bodies(Poll::Ready(Ok(response))),
            range_valid,
            valid,
        ),
        0 <= k < state.in_flight_bodies.len(),
    ensures
        crate::full_block_range::judges_bodies(
            consensus,
            state.in_flight_bodies,
            response.data@,
            valid,
        ),
        valid.len() == state.in_flight_bodies.len(),
        exists|result: Result<(), C::Error>| #[trigger]
            call_ensures(
                C::validate_body_against_header,
                (consensus, &response.data@[k], &state.in_flight_bodies[k]),
                result,
            ) && valid[k] == result is Ok,
{
    assert(crate::consensus::body_verdict(
        consensus,
        &response.data@[k],
        &state.in_flight_bodies[k],
        valid[k],
    ));
}

pub(crate) proof fn lemma_new_blocks_need_an_ok<B, C: Consensus<B>>(
    consensus: &C,
    state: RangeState<B>,
    response: WithPeerId<Vec<B>>,
    valid: Seq<bool>,
)
    requires
        crate::full_block_range::judges_bodies(
            consensus,
            state.in_flight_bodies,
            response.data@,
            valid,
        ),
    ensures
        forall|block: SealedBlock<B>| #[trigger]
            state.on_bodies_response(response, valid).0.downloaded_blocks.contains(block)
                ==> state.downloaded_blocks.contains(block) || exists|
                result: Result<(), C::Error>,
            | #[trigger]
                call_ensures(
                    C::validate_body_against_header,
                    (consensus, &block.body, &block.header),
                    result,
                ) && result is Ok,
{
    let flight = state.in_flight_bodies;
    let next = state.on_bodies_response(response, valid).0;
    if response.data@.len() == flight.len() {
        let blocks = crate::full_block_range::assembled(flight, response.data@, valid);
        crate::full_block_range_laws::law_bodies_are_matched_or_queued(
            flight,
            response.data@,
            valid,
        );
        assert forall|block: SealedBlock<B>| #[trigger]
            next.downloaded_blocks.contains(block) && !state.downloaded_blocks.contains(
            block,
        ) implies exists|result: Result<(), C::Error>| #[trigger]
            call_ensures(
                C::validate_body_against_header,
                (consensus, &block.body, &block.header),
                result,
            ) && result is Ok by {
            let i = choose|i: int|
                0 <= i < next.downloaded_blocks.len() && next.downloaded_blocks[i] == block;
            let done = state.downloaded_blocks.len() as int;
            if i < done {
                assert(state.downloaded_blocks[i] == block);
            }
            assert(blocks[i - done] == block);
            assert(blocks.contains(block));
            let k = choose|k: int|
                0 <= k < flight.len() && valid[k] && block == (SealedBlock {
                    header: #[trigger] flight[k],
                    body: response.data@[k],
                });
            assert(crate::consensus::body_verdict(
                consensus,
                &response.data@[k],
                &flight[k],
                valid[k],
            ));
        }
    }
}

/// A block is there that was not there before only after the consensus rules returned `Ok` for its
/// body and its header. So a body that they can only refuse never makes it into a block.
pub proof fn law_range_block_needs_an_ok<B, C: Consensus<B>>(
    consensus: &C,
    state: RangeState<B>,
    event: RangeEvent<B>,
    range_valid: bool,
    valid: Seq<bool>,
    block: SealedBlock<B>,
)
    requires
        state.wf(),
        state.accepts(event),
        crate::full_block_range::judges_event(consensus, state, event, range_valid, valid),
        !state.downloaded_blocks.contains(block),
        state.after(event, range_valid, valid).state.downloaded_blocks.contains(block) || (
        state.after(event, range_valid, valid).step matches RangeStepView::Ready(blocks)
            && blocks.contains(block)),
    ensures
        exists|result: Result<(), C::Error>| #[trigger]
            call_ensures(
                C::validate_body_against_header,
                (consensus, &block.body, &block.header),
                result,
            ) && result is Ok,
{
    crate::full_block_range_laws::law_only_accepted_blocks(
        state,
        event,
        range_valid,
        valid,
        block,
    );
    if let RangeEvent::Bodies(Poll::Ready(Ok(response))) = event {
        let k = choose|k: int|
            0 <= k < state.in_flight_bodies.len() && valid[k] && block == (SealedBlock {
                header: #[trigger] state.in_flight_bodies[k],
                body: response.data@[k],
            });
        law_each_body_is_judged_by_a_call(consensus, state, response, range_valid, valid, k);
    }
}

proof fn lemma_polled_blocks_need_an_ok<B, C: Consensus<B>>(
    consensus: &C,
    state: RangeState<B>,
    event: RangeEvent<B>,
    range_valid: bool,
    valid: Seq<bool>,
)
    requires
        state.wf(),
        state.accepts(event),
        crate::full_block_range::judges_event(consensus, state, event, range_valid, valid),
    ensures
        ({
            let outcome = state.after(event, range_valid, valid);
            forall|block: SealedBlock<B>|
                #![trigger outcome.state.downloaded_blocks.contains(block)]
                #![trigger outcome.step->Ready_0.contains(block)]
                outcome.state.downloaded_blocks.contains(block) || (outcome.step is Ready
                    && outcome.step->Ready_0.contains(block)) ==> state.downloaded_blocks.contains(
                    block,
                ) || exists|result: Result<(), C::Error>| #[trigger]
                    call_ensures(
                        C::validate_body_against_header,
                        (consensus, &block.body, &block.header),
                        result,
                    ) && result is Ok
        }),
{
    let outcome = state.after(event, range_valid, valid);
    assert forall|block: SealedBlock<B>|
        #![trigger outcome.state.downloaded_blocks.contains(block)]
        #![trigger outcome.step->Ready_0.contains(block)]
        (outcome.state.downloaded_blocks.contains(block) || (outcome.step is Ready
            && outcome.step->Ready_0.contains(block))) && !state.downloaded_blocks.contains(
        block,
    ) implies exists|result: Result<(), C::Error>| #[trigger]
        call_ensures(
            C::validate_body_against_header,
            (consensus, &block.body, &block.header),
            result,
        ) && result is Ok by {
        law_range_block_needs_an_ok(consensus, state, event, range_valid, valid, block);
    }
}

pub(crate) proof fn lemma_polled<B, C: Consensus<B>>(
    consensus: &C,
    state: RangeState<B>,
    event: RangeEvent<B>,
    range_valid: bool,
    valid: Seq<bool>,
)
    requires
        state.wf(),
        state.accepts(event),
        crate::full_block_range::judges_event(consensus, state, event, range_valid, valid),
    ensures
        ({
            let outcome = state.after(event, range_valid, valid);
            let next = outcome.state;
            &&& next.wf()
            &&& outcome.step is PollHeaders ==> next.headers_request
            &&& outcome.step is PollBodies ==> next.bodies_request
            &&& outcome.step matches RangeStepView::Ready(blocks) ==> {
                &&& blocks.len() == state.total_to_download
                &&& crate::order::is_falling(blocks)
                &&& blocks.len() > 0 ==> blocks[0].header.hash == state.start_hash
                &&& forall|i: int, j: int|
                    0 <= i <= j < blocks.len() ==> (#[trigger] blocks[i]).header.header.number >= (
                    #[trigger] blocks[j]).header.header.number
            }
            &&& forall|block: SealedBlock<B>|
                #![trigger next.downloaded_blocks.contains(block)]
                #![trigger outcome.step->Ready_0.contains(block)]
                next.downloaded_blocks.contains(block) || (outcome.step is Ready
                    && outcome.step->Ready_0.contains(block)) ==> state.downloaded_blocks.contains(
                    block,
                ) || exists|result: Result<(), C::Error>| #[trigger]
                    call_ensures(
                        C::validate_body_against_header,
                        (consensus, &block.body, &block.header),
                        result,
                    ) && result is Ok
            &&& next.headers_downloaded > state.headers_downloaded ==> exists|
                rising: &[SealedHeader],
                result: Result<(), C::Error>,
            | #[trigger]
                call_ensures(C::validate_header_range, (consensus, rising), result) && result is Ok
                    && next.headers_downloaded == state.headers_downloaded + rising@.len()
        }),
{
    crate::full_block_range_laws::law_range_stays_well_formed(state, event, range_valid, valid);
    lemma_polled_blocks_need_an_ok(consensus, state, event, range_valid, valid);
    law_progress_needs_an_ok(consensus, state, event, range_valid, valid);
    if let RangeStepView::Ready(blocks) = state.after(event, range_valid, valid).step {
        law_range_yields_what_was_downloaded(state, event, range_valid, valid, blocks);
        crate::full_block_range_laws::law_range_is_what_was_requested(
            state,
            event,
            range_valid,
            valid,
            blocks,
        );
    }
}

} // verus!
