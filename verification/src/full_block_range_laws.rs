//! Laws of the download of a range of blocks.
use vstd::prelude::*;

use crate::full_block_range::{RangeEvent, RangeState, RangeStepView, PIPELINE_BATCH_SIZE};
use crate::primitives::{Header, PeerId, SealedBlock, SealedHeader, WithPeerId, B256};
use crate::request::{BlockHashOrNumber, HeadersDirection, Poll, RequestError};

verus! {

/// Bodies are never mixed up or lost: every header whose body was requested is either queued
/// again, if its body was refused, or stands in a block with the body at its place, if that was
/// accepted. Nothing else is queued, and there is no other block.
pub proof fn law_bodies_are_matched_or_queued<B>(
    headers: Seq<SealedHeader>,
    bodies: Seq<B>,
    valid: Seq<bool>,
)
    ensures
        crate::full_block_range::refused(headers, valid).len()
            + crate::full_block_range::assembled(headers, bodies, valid).len() == headers.len(),
        forall|k: int|
            0 <= k < headers.len() && !valid[k] ==> crate::full_block_range::refused(
                headers,
                valid,
            ).contains(#[trigger] headers[k]),
        forall|k: int|
            0 <= k < headers.len() && valid[k] ==> crate::full_block_range::assembled(
                headers,
                bodies,
                valid,
            ).contains(SealedBlock { header: #[trigger] headers[k], body: bodies[k] }),
        forall|header: SealedHeader| #[trigger]
            crate::full_block_range::refused(headers, valid).contains(header) ==> exists|k: int|
                0 <= k < headers.len() && !valid[k] && #[trigger] headers[k] == header,
        forall|block: SealedBlock<B>| #[trigger]
            crate::full_block_range::assembled(headers, bodies, valid).contains(block) ==> exists|
                k: int,
            |
                0 <= k < headers.len() && valid[k] && block == (SealedBlock {
                    header: #[trigger] headers[k],
                    body: bodies[k],
                }),
    decreases headers.len(),
{
    if headers.len() > 0 {
        let n = headers.len() - 1;
        let front = headers.drop_last();
        law_bodies_are_matched_or_queued(front, bodies, valid);
        let again = crate::full_block_range::refused(headers, valid);
        let blocks = crate::full_block_range::assembled(headers, bodies, valid);
        let front_again = crate::full_block_range::refused(front, valid);
        let front_blocks = crate::full_block_range::assembled(front, bodies, valid);
        let last = SealedBlock { header: headers[n], body: bodies[n] };
        assert(forall|k: int| 0 <= k < n ==> front[k] == headers[k]);
        assert(forall|header: SealedHeader|
            front_again.contains(header) ==> again.contains(header)) by {
            assert forall|header: SealedHeader| front_again.contains(header) implies again.contains(
                header,
            ) by {
                let i = choose|i: int| 0 <= i < front_again.len() && front_again[i] == header;
                assert(again[i] == header);
            }
        }
        assert forall|block: SealedBlock<B>| front_blocks.contains(block) implies blocks.contains(
            block,
        ) by {
            let i = choose|i: int| 0 <= i < front_blocks.len() && front_blocks[i] == block;
            assert(blocks[i] == block);
        }
        if valid[n] {
            assert(blocks[front_blocks.len() as int] == last);
        } else {
            assert(again[front_again.len() as int] == headers[n]);
        }
        assert forall|k: int| 0 <= k < headers.len() && !valid[k] implies again.contains(
            #[trigger] headers[k],
        ) by {
            if k < n {
                assert(front_again.contains(front[k]));
            }
        }
        assert forall|k: int| 0 <= k < headers.len() && valid[k] implies blocks.contains(
            SealedBlock { header: #[trigger] headers[k], body: bodies[k] },
        ) by {
            if k < n {
                assert(front_blocks.contains(SealedBlock { header: front[k], body: bodies[k] }));
            }
        }
        assert forall|header: SealedHeader| #[trigger] again.contains(header) implies exists|k: int|
            0 <= k < headers.len() && !valid[k] && #[trigger] headers[k] == header by {
            let i = choose|i: int| 0 <= i < again.len() && again[i] == header;
            if i < front_again.len() {
                assert(front_again[i] == header);
                assert(front_again.contains(header));
                let k = choose|k: int|
                    0 <= k < front.len() && !valid[k] && #[trigger] front[k] == header;
                assert(headers[k] == header);
            } else {
                assert(headers[n] == header);
            }
        }
        assert forall|block: SealedBlock<B>| #[trigger] blocks.contains(block) implies exists|
            k: int,
        |
            0 <= k < headers.len() && valid[k] && block == (SealedBlock {
                header: #[trigger] headers[k],
                body: bodies[k],
            }) by {
            let i = choose|i: int| 0 <= i < blocks.len() && blocks[i] == block;
            if i < front_blocks.len() {
                assert(front_blocks[i] == block);
                assert(front_blocks.contains(block));
                let k = choose|k: int|
                    0 <= k < front.len() && valid[k] && block == (SealedBlock {
                        header: #[trigger] front[k],
                        body: bodies[k],
                    });
                assert(headers[k] == block.header);
            } else {
                assert(headers[n] == block.header);
            }
        }
    }
}

/// Putting the headers of a response into falling order keeps that they can belong to the range,
/// and the header that a first response begins with stays first in number.
pub proof fn law_sorting_keeps_the_start<B>(state: RangeState<B>, headers: Seq<SealedHeader>)
    requires
        state.can_take(headers),
    ensures
        state.can_take(crate::order::falling(headers)),
        state.with_start(crate::order::falling(headers)) == state.with_start(headers),
{
    let falling = crate::order::falling(headers);
    crate::order::law_falling_permutes(headers);
    crate::order::law_falling_is_falling(headers);
    assert forall|i: int| 0 <= i < falling.len() implies state.with_start(headers).fits_range(
        #[trigger] falling[i],
    ) by {
        assert(falling.contains(falling[i]));
        let k = choose|k: int| 0 <= k < headers.len() && headers[k] == falling[i];
        assert(state.with_start(headers).fits_range(headers[k]));
    }
    if state.headers_downloaded == 0 {
        assert(headers.contains(headers[0]));
        assert(falling.contains(headers[0]));
        let k = choose|k: int| 0 <= k < falling.len() && falling[k] == headers[0];
        assert(falling[0].header.number >= falling[k].header.number) by {
            use_falling(falling, 0, k);
        }
    }
}

proof fn use_falling(s: Seq<SealedHeader>, i: int, j: int)
    requires
        crate::order::is_falling(s),
        0 <= i <= j < s.len(),
    ensures
        s[i].header.number >= s[j].header.number,
{
    assert(crate::order::Numbered::block_number(&s[i]) >= crate::order::Numbered::block_number(
        &s[j],
    ));
}

/// Every header of `to` is one of `from`, or one of `added`.
pub open spec fn gains_only<B>(
    from: RangeState<B>,
    to: RangeState<B>,
    added: Seq<SealedHeader>,
) -> bool {
    forall|header: SealedHeader| #[trigger]
        to.has_header(header) ==> from.has_header(header) || added.contains(header)
}

/// Every header of `from` is one of `to`.
pub open spec fn keeps_all<B>(from: RangeState<B>, to: RangeState<B>) -> bool {
    forall|header: SealedHeader| #[trigger] from.has_header(header) ==> to.has_header(header)
}

proof fn lemma_contains_add<T>(a: Seq<T>, b: Seq<T>)
    ensures
        forall|x: T| #[trigger] (a + b).contains(x) <==> a.contains(x) || b.contains(x),
{
    assert forall|x: T| #[trigger] (a + b).contains(x) <==> a.contains(x) || b.contains(x) by {
        let c = a + b;
        if a.contains(x) {
            let i = choose|i: int| 0 <= i < a.len() && a[i] == x;
            assert(c[i] == x);
        }
        if b.contains(x) {
            let i = choose|i: int| 0 <= i < b.len() && b[i] == x;
            assert(c[a.len() + i] == x);
        }
        if c.contains(x) {
            let i = choose|i: int| 0 <= i < c.len() && c[i] == x;
            if i < a.len() {
                assert(a[i] == x);
            } else {
                assert(b[i - a.len()] == x);
            }
        }
    }
}

pub(crate) proof fn lemma_requests_keep_headers<B>(state: RangeState<B>)
    requires
        state.wf(),
    ensures
        state.with_new_requests().wf(),
        keeps_all(state, state.with_new_requests()),
        gains_only(state, state.with_new_requests(), Seq::empty()),
{
    let issued = state.with_new_requests();
    let batch = state.pending_headers.take(state.body_batch());
    let rest = state.pending_headers.skip(state.body_batch());
    assert(batch + rest =~= state.pending_headers);
    lemma_contains_add(batch, rest);
    lemma_contains_add(state.in_flight_bodies, batch);
    assert forall|header: SealedHeader|
        state.has_header(header) <==> #[trigger] issued.has_header(header) by {
        assert(state.downloaded_blocks == issued.downloaded_blocks);
    }
    assert forall|header: SealedHeader| #[trigger] issued.has_header(header) implies issued.fits_range(
        header,
    ) by {
        assert(state.has_header(header));
        assert(state.fits_range(header));
    }
    if state.headers_downloaded > 0 && !state.is_finished() {
        let header = choose|header: SealedHeader|
            state.has_header(header) && header.header.number == state.start_number;
        assert(issued.has_header(header));
    }
}

pub(crate) proof fn lemma_headers_keep_headers<B>(state: RangeState<B>, headers: Seq<SealedHeader>)
    requires
        state.wf(),
        state.can_take(headers),
    ensures
        (RangeState { headers_request: false, ..state }).with_headers(headers).wf(),
        keeps_all(state, state.with_headers(headers)),
        gains_only(state, state.with_headers(headers), headers),
{
    let answered = RangeState { headers_request: false, ..state };
    let taken = answered.with_headers(headers);
    lemma_contains_add(state.pending_headers, headers);
    assert forall|header: SealedHeader| #[trigger] taken.has_header(header) implies taken.fits_range(
        header,
    ) by {
        if headers.contains(header) {
            let i = choose|i: int| 0 <= i < headers.len() && headers[i] == header;
            assert(state.with_start(headers).fits_range(headers[i]));
        } else {
            assert(state.has_header(header));
            assert(state.fits_range(header));
        }
    }
    assert forall|header: SealedHeader| #[trigger] state.has_header(header) implies taken.has_header(
        header,
    ) by {}
    assert forall|header: SealedHeader| #[trigger]
        state.with_headers(headers).has_header(header) <==> taken.has_header(header) by {}
    if state.headers_downloaded == 0 {
        assert(headers.contains(headers[0]));
        assert(taken.has_header(headers[0]));
    } else if !state.is_finished() {
        let header = choose|header: SealedHeader|
            state.has_header(header) && header.header.number == state.start_number;
        assert(taken.has_header(header));
    }
}

pub(crate) proof fn lemma_requeueing_keeps_headers<B>(state: RangeState<B>)
    requires
        state.wf(),
    ensures
        state.requeued().wf(),
        keeps_all(state, state.requeued()),
        gains_only(state, state.requeued(), Seq::empty()),
{
    let queued = state.requeued();
    lemma_contains_add(state.pending_headers, state.in_flight_bodies);
    assert forall|header: SealedHeader|
        state.has_header(header) <==> #[trigger] queued.has_header(header) by {
        assert(state.downloaded_blocks == queued.downloaded_blocks);
    }
    assert forall|header: SealedHeader| #[trigger] queued.has_header(header) implies queued.fits_range(
        header,
    ) by {
        assert(state.has_header(header));
        assert(state.fits_range(header));
    }
    if state.headers_downloaded > 0 && !state.is_finished() {
        let header = choose|header: SealedHeader|
            state.has_header(header) && header.header.number == state.start_number;
        assert(queued.has_header(header));
    }
}

pub(crate) proof fn lemma_bodies_keep_headers<B>(
    state: RangeState<B>,
    response: WithPeerId<Vec<B>>,
    valid: Seq<bool>,
)
    requires
        state.wf(),
    ensures
        state.on_bodies_response(response, valid).0.wf(),
        keeps_all(state, state.on_bodies_response(response, valid).0),
        gains_only(state, state.on_bodies_response(response, valid).0, Seq::empty()),
{
    if response.data@.len() != state.in_flight_bodies.len() {
        lemma_requeueing_keeps_headers(state);
        return ;
    }
    let flight = state.in_flight_bodies;
    let again = crate::full_block_range::refused(flight, valid);
    let blocks = crate::full_block_range::assembled(flight, response.data@, valid);
    let next = state.on_bodies_response(response, valid).0;
    law_bodies_are_matched_or_queued(flight, response.data@, valid);
    lemma_contains_add(state.pending_headers, again);
    assert forall|header: SealedHeader| #[trigger] next.has_header(header) implies state.has_header(
        header,
    ) by {
        if again.contains(header) {
            assert(flight.contains(header));
        } else if !state.pending_headers.contains(header) {
            let i = choose|i: int|
                0 <= i < next.downloaded_blocks.len() && (
                #[trigger] next.downloaded_blocks[i]).header == header;
            let old_len = state.downloaded_blocks.len();
            if i < old_len {
                assert(state.downloaded_blocks[i].header == header);
            } else {
                assert(blocks[i - old_len] == next.downloaded_blocks[i]);
                assert(blocks.contains(next.downloaded_blocks[i]));
                assert(flight.contains(header));
            }
        }
    }
    assert forall|header: SealedHeader| #[trigger] state.has_header(header) implies next.has_header(
        header,
    ) by {
        if state.pending_headers.contains(header) {
        } else if flight.contains(header) {
            let k = choose|k: int| 0 <= k < flight.len() && flight[k] == header;
            if valid[k] {
                let block = SealedBlock { header: flight[k], body: response.data@[k] };
                assert(blocks.contains(block));
                let i = choose|i: int| 0 <= i < blocks.len() && blocks[i] == block;
                assert(next.downloaded_blocks[state.downloaded_blocks.len() + i] == block);
            } else {
                assert(again.contains(flight[k]));
            }
        } else {
            let i = choose|i: int|
                0 <= i < state.downloaded_blocks.len() && (
                #[trigger] state.downloaded_blocks[i]).header == header;
            assert(next.downloaded_blocks[i].header == header);
        }
    }
    if state.headers_downloaded > 0 && !state.is_finished() {
        let header = choose|header: SealedHeader|
            state.has_header(header) && header.header.number == state.start_number;
        assert(next.has_header(header));
    }
}

pub(crate) proof fn lemma_round_is_well_formed<B>(state: RangeState<B>, reports: Seq<PeerId>)
    requires
        state.wf(),
    ensures
        state.round(reports).state.wf(),
{
    if state.is_complete() {
        let next = state.round(reports).state;
        assert forall|header: SealedHeader| #[trigger]
            next.has_header(header) implies next.fits_range(header) by {
            assert(state.has_header(header));
        }
    } else {
        lemma_requests_keep_headers(state);
        lemma_same_headers(state.with_new_requests(), state.round(reports).state);
    }
}

/// What a download has does not depend on which requests are in flight, nor on the progress of a
/// poll.
pub(crate) proof fn lemma_same_headers<B>(a: RangeState<B>, b: RangeState<B>)
    requires
        a.pending_headers == b.pending_headers,
        a.in_flight_bodies == b.in_flight_bodies,
        a.downloaded_blocks == b.downloaded_blocks,
    ensures
        forall|header: SealedHeader| #[trigger] a.has_header(header) <==> b.has_header(header),
        forall|header: SealedHeader| #[trigger] b.has_header(header) <==> a.has_header(header),
{
}

pub(crate) proof fn lemma_set_progress<B>(state: RangeState<B>, headers_request: bool, progress: bool)
    requires
        state.wf(),
        headers_request ==> state.headers_request,
    ensures
        (RangeState { headers_request, progress, ..state }).wf(),
        keeps_all(state, RangeState { headers_request, progress, ..state }),
        gains_only(state, RangeState { headers_request, progress, ..state }, Seq::empty()),
{
    let next = RangeState { headers_request, progress, ..state };
    lemma_same_headers(state, next);
    if state.headers_downloaded > 0 && !state.is_finished() {
        let header = choose|header: SealedHeader|
            state.has_header(header) && header.header.number == state.start_number;
        assert(next.has_header(header));
    }
}

/// The download after the response of an event was handled, before the poll goes on.
pub open spec fn handled<B>(
    state: RangeState<B>,
    event: RangeEvent<B>,
    range_valid: bool,
    valid: Seq<bool>,
) -> RangeState<B> {
    match event {
        RangeEvent::Headers(Poll::Ready(Ok(response))) => RangeState {
            progress: true,
            ..state.on_headers_response(response, range_valid).0
        },
        RangeEvent::Headers(Poll::Ready(Err(_))) => RangeState {
            headers_request: false,
            progress: true,
            ..state
        },
        RangeEvent::Bodies(Poll::Ready(Ok(response))) => RangeState {
            progress: true,
            ..state.on_bodies_response(response, valid).0
        },
        RangeEvent::Bodies(Poll::Ready(Err(_))) => RangeState {
            progress: true,
            ..state.requeued()
        },
        _ => state,
    }
}

/// The headers that an event adds to a download.
pub open spec fn added_headers<B>(
    state: RangeState<B>,
    event: RangeEvent<B>,
    range_valid: bool,
) -> Seq<SealedHeader> {
    match event {
        RangeEvent::Headers(Poll::Ready(Ok(response))) => match state.candidate(response.data@) {
            Some(headers) if range_valid => headers,
            _ => Seq::empty(),
        },
        _ => Seq::empty(),
    }
}

pub(crate) proof fn lemma_handled<B>(
    state: RangeState<B>,
    event: RangeEvent<B>,
    range_valid: bool,
    valid: Seq<bool>,
)
    requires
        state.wf(),
    ensures
        handled(state, event, range_valid, valid).wf(),
        keeps_all(state, handled(state, event, range_valid, valid)),
        gains_only(
            state,
            handled(state, event, range_valid, valid),
            added_headers(state, event, range_valid),
        ),
{
    let next = handled(state, event, range_valid, valid);
    match event {
        RangeEvent::Headers(Poll::Ready(Ok(response))) => {
            lemma_set_progress(state, false, true);
            if let Some(headers) = state.candidate(response.data@) {
                if range_valid {
                    let all = crate::full_block_range::all_sealed(response.data@);
                    law_sorting_keeps_the_start(state, all);
                    lemma_headers_keep_headers(state, headers);
                    let taken = state.on_headers_response(response, range_valid).0;
                    lemma_same_headers(state.with_headers(headers), taken);
                    lemma_set_progress(taken, false, true);
                }
            }
        },
        RangeEvent::Headers(Poll::Ready(Err(_))) => {
            lemma_set_progress(state, false, true);
        },
        RangeEvent::Bodies(Poll::Ready(Ok(response))) => {
            let taken = state.on_bodies_response(response, valid).0;
            lemma_bodies_keep_headers(state, response, valid);
            lemma_set_progress(taken, taken.headers_request, true);
        },
        RangeEvent::Bodies(Poll::Ready(Err(_))) => {
            lemma_requeueing_keeps_headers(state);
            lemma_set_progress(state.requeued(), state.headers_request, true);
        },
        _ => {},
    }
}

/// What holds of every range download is kept by every event, whatever the consensus rules
/// answer, and a step never asks for a poll that the download does not accept.
pub proof fn law_range_stays_well_formed<B>(
    state: RangeState<B>,
    event: RangeEvent<B>,
    range_valid: bool,
    valid: Seq<bool>,
)
    requires
        state.wf(),
        state.accepts(event),
    ensures
        state.after(event, range_valid, valid).state.wf(),
        state.after(event, range_valid, valid).state.start_hash == state.start_hash,
        state.after(event, range_valid, valid).state.total_to_download == state.total_to_download,
        state.after(event, range_valid, valid).step is PollHeaders ==> forall|polled|
            #[trigger] state.after(event, range_valid, valid).state.accepts(
                RangeEvent::Headers(polled),
            ),
        state.after(event, range_valid, valid).step is PollBodies ==> forall|polled|
            #[trigger] state.after(event, range_valid, valid).state.accepts(
                RangeEvent::Bodies(polled),
            ),
{
    let next = handled(state, event, range_valid, valid);
    lemma_handled(state, event, range_valid, valid);
    lemma_round_is_well_formed(next, state.after(event, range_valid, valid).reports);
}

/// The blocks that a download yields are as many as were requested, they come in falling order,
/// each is sealed with the hash of its own header, and the first has the requested hash.
pub proof fn law_range_is_what_was_requested<B>(
    state: RangeState<B>,
    event: RangeEvent<B>,
    range_valid: bool,
    valid: Seq<bool>,
    blocks: Seq<SealedBlock<B>>,
)
    requires
        state.wf(),
        state.accepts(event),
        state.after(event, range_valid, valid).step == RangeStepView::Ready(blocks),
    ensures
        blocks.len() == state.total_to_download,
        crate::order::is_falling(blocks),
        forall|i: int| 0 <= i < blocks.len() ==> (#[trigger] blocks[i]).header.is_sealed(),
        state.total_to_download > 0 ==> blocks[0].header.hash == state.start_hash,
{
    let next = handled(state, event, range_valid, valid);
    lemma_handled(state, event, range_valid, valid);
    let unsorted = next.downloaded_blocks;
    assert(blocks == crate::order::falling(unsorted));
    crate::order::law_falling_permutes(unsorted);
    crate::order::law_falling_is_falling(unsorted);
    assert forall|i: int| 0 <= i < blocks.len() implies next.fits_range(
        (#[trigger] blocks[i]).header,
    ) by {
        assert(blocks.contains(blocks[i]));
        let k = choose|k: int| 0 <= k < unsorted.len() && unsorted[k] == blocks[i];
        assert(unsorted[k].header == blocks[i].header);
        assert(next.has_header(blocks[i].header));
    }
    if state.total_to_download > 0 {
        let header = choose|header: SealedHeader|
            next.has_header(header) && header.header.number == next.start_number;
        let k = choose|k: int|
            0 <= k < unsorted.len() && (#[trigger] unsorted[k]).header == header;
        assert(unsorted.contains(unsorted[k]));
        assert(blocks.contains(unsorted[k]));
        let j = choose|j: int| 0 <= j < blocks.len() && blocks[j] == unsorted[k];
        assert(crate::order::Numbered::block_number(&blocks[0])
            >= crate::order::Numbered::block_number(&blocks[j]));
        assert(next.fits_range(blocks[0].header));
    }
}

/// If the downloaded blocks are consecutive, they are yielded counting down from the number of the
/// starting block, one by one.
pub proof fn law_range_counts_down<B>(
    state: RangeState<B>,
    reports: Seq<PeerId>,
    blocks: Seq<SealedBlock<B>>,
    i: int,
)
    requires
        state.wf(),
        state.round(reports).step == RangeStepView::Ready(blocks),
        crate::order::is_run(state.downloaded_blocks, state.start_number as int),
        0 <= i < state.total_to_download,
    ensures
        blocks[i].header.header.number == state.start_number - i,
{
    crate::order::law_falling_counts_down(state.downloaded_blocks, state.start_number as int, i);
}

/// No header is lost: each one that a download has, it still has after an event, whatever peers
/// send and whatever the consensus rules answer, or it is in a block that the download yields.
pub proof fn law_no_header_is_lost<B>(
    state: RangeState<B>,
    event: RangeEvent<B>,
    range_valid: bool,
    valid: Seq<bool>,
    header: SealedHeader,
)
    requires
        state.wf(),
        state.accepts(event),
        state.has_header(header),
    ensures
        state.after(event, range_valid, valid).state.has_header(header) || (state.after(
            event,
            range_valid,
            valid,
        ).step matches RangeStepView::Ready(blocks) && exists|i: int|
            0 <= i < blocks.len() && (#[trigger] blocks[i]).header == header),
{
    let next = handled(state, event, range_valid, valid);
    let outcome = state.after(event, range_valid, valid);
    lemma_handled(state, event, range_valid, valid);
    assert(next.has_header(header));
    if let RangeStepView::Ready(blocks) = outcome.step {
        let unsorted = next.downloaded_blocks;
        crate::order::law_falling_permutes(unsorted);
        let k = choose|k: int|
            0 <= k < unsorted.len() && (#[trigger] unsorted[k]).header == header;
        assert(unsorted.contains(unsorted[k]));
        assert(blocks.contains(unsorted[k]));
    } else {
        lemma_requests_keep_headers(next);
        lemma_same_headers(next.with_new_requests(), next.round(outcome.reports).state);
        assert(next.with_new_requests().has_header(header));
    }
}

/// A download gets a header only out of a response to its headers request, and only if the
/// consensus rules accepted the headers of that response.
pub proof fn law_only_accepted_headers<B>(
    state: RangeState<B>,
    event: RangeEvent<B>,
    range_valid: bool,
    valid: Seq<bool>,
    header: SealedHeader,
)
    requires
        state.wf(),
        state.accepts(event),
        state.after(event, range_valid, valid).state.has_header(header),
    ensures
        state.has_header(header) || (event matches RangeEvent::Headers(Poll::Ready(Ok(response)))
            && range_valid && crate::full_block_range::all_sealed(response.data@).contains(header)),
{
    let next = handled(state, event, range_valid, valid);
    let outcome = state.after(event, range_valid, valid);
    lemma_handled(state, event, range_valid, valid);
    lemma_requests_keep_headers(next);
    lemma_same_headers(next.with_new_requests(), next.round(outcome.reports).state);
    assert(next.has_header(header));
    if !state.has_header(header) {
        if let RangeEvent::Headers(Poll::Ready(Ok(response))) = event {
            crate::order::law_falling_permutes(
                crate::full_block_range::all_sealed(response.data@),
            );
        }
    }
}

/// A block is assembled only out of a header whose body was requested and the body that came at
/// its place, and only if the consensus rules accepted that body for that header.
pub proof fn law_only_accepted_blocks<B>(
    state: RangeState<B>,
    event: RangeEvent<B>,
    range_valid: bool,
    valid: Seq<bool>,
    block: SealedBlock<B>,
)
    requires
        state.wf(),
        state.accepts(event),
        state.after(event, range_valid, valid).state.downloaded_blocks.contains(block) || (
        state.after(event, range_valid, valid).step matches RangeStepView::Ready(blocks)
            && blocks.contains(block)),
    ensures
        state.downloaded_blocks.contains(block) || (event matches RangeEvent::Bodies(
            Poll::Ready(Ok(response)),
        ) && response.data@.len() == state.in_flight_bodies.len() && exists|k: int|
            0 <= k < state.in_flight_bodies.len() && valid[k] && block == (SealedBlock {
                header: #[trigger] state.in_flight_bodies[k],
                body: response.data@[k],
            })),
{
    let next = handled(state, event, range_valid, valid);
    crate::order::law_falling_permutes(next.downloaded_blocks);
    assert(next.downloaded_blocks.contains(block));
    if let RangeEvent::Bodies(Poll::Ready(Ok(response))) = event {
        if response.data@.len() == state.in_flight_bodies.len() {
            law_bodies_are_matched_or_queued(state.in_flight_bodies, response.data@, valid);
            lemma_contains_add(
                state.downloaded_blocks,
                crate::full_block_range::assembled(
                    state.in_flight_bodies,
                    response.data@,
                    valid,
                ),
            );
        }
    }
}

/// The headers of a download count: those whose bodies are missing, requested or there are as many
/// as were downloaded, and never more than were requested. Once all are there and no body is
/// missing, the download is complete.
pub proof fn law_headers_are_counted<B>(state: RangeState<B>)
    requires
        state.wf(),
        !state.is_finished(),
    ensures
        state.pending_headers.len() + state.in_flight_bodies.len() + state.downloaded_blocks.len()
            == state.headers_downloaded <= state.total_to_download,
        state.is_complete() <==> state.headers_downloaded == state.total_to_download
            && state.pending_headers.len() == 0 && state.in_flight_bodies.len() == 0,
{
}

/// A download that waits has a request in flight, so it does not wait forever by its own doing.
pub proof fn law_range_is_never_stuck<B>(
    state: RangeState<B>,
    event: RangeEvent<B>,
    range_valid: bool,
    valid: Seq<bool>,
)
    requires
        state.wf(),
        state.accepts(event),
        !state.is_finished(),
    ensures
        state.after(event, range_valid, valid).step is Ready || !state.after(
            event,
            range_valid,
            valid,
        ).state.is_finished(),
        state.after(event, range_valid, valid).step is Pending ==> state.after(
            event,
            range_valid,
            valid,
        ).state.headers_request || state.after(event, range_valid, valid).state.bodies_request,
{
    lemma_handled(state, event, range_valid, valid);
}

/// Requests are batched: headers are requested one batch at a time, no more than are missing,
/// downwards from the hash that comes next; bodies are requested one batch at a time, for the
/// headers that wait longest, in their order.
pub proof fn law_requests_are_batched<B>(state: RangeState<B>)
    requires
        state.wf(),
    ensures
        state.new_requests().headers is Some <==> !state.headers_request
            && state.with_new_requests().headers_request,
        state.new_requests().headers matches Some(request) ==> 1 <= request.limit
            <= PIPELINE_BATCH_SIZE && request.limit <= state.missing_headers() && request.start
            == BlockHashOrNumber::Hash(state.next_request_hash) && request.direction
            == HeadersDirection::Falling,
        state.new_requests().bodies is Some <==> !state.bodies_request
            && state.with_new_requests().bodies_request,
        state.new_requests().bodies matches Some(hashes) ==> 1 <= hashes.len()
            <= PIPELINE_BATCH_SIZE && hashes =~= state.with_new_requests().in_flight_bodies.map_values(
            |header: SealedHeader| header.hash,
        ),
        state.with_new_requests().in_flight_bodies + state.with_new_requests().pending_headers
            =~= state.in_flight_bodies + state.pending_headers,
{
}

/// A headers response that fails, that cannot belong to the range or that the consensus rules
/// refuse changes nothing but that the request is done; the same headers are requested again. Its
/// peer is reported, unless the request failed.
pub proof fn law_bad_headers_are_requested_again<B>(
    state: RangeState<B>,
    response: WithPeerId<Vec<Header>>,
    error: RequestError,
    range_valid: bool,
    valid: Seq<bool>,
)
    requires
        state.wf(),
        state.headers_request,
        state.candidate(response.data@) is None || !range_valid,
    ensures
        state.on_headers_response(response, range_valid) == (
            RangeState { headers_request: false, ..state },
            seq![response.peer_id],
        ),
        state.after(RangeEvent::Headers(Poll::Ready(Err(error))), range_valid, valid) == (
        RangeState { headers_request: false, progress: true, ..state }).then_bodies(Seq::empty()),
        (RangeState { headers_request: false, ..state }).new_requests().headers == Some(
            state.next_headers(),
        ),
{
}

/// A bodies response of the wrong length, or a failed bodies request, leaves every header queued,
/// and no block is assembled. A peer that sent a wrong length is reported.
pub proof fn law_bad_bodies_are_requested_again<B>(
    state: RangeState<B>,
    response: WithPeerId<Vec<B>>,
    error: RequestError,
    range_valid: bool,
    valid: Seq<bool>,
)
    requires
        state.wf(),
        state.bodies_request,
        response.data@.len() != state.in_flight_bodies.len(),
    ensures
        state.on_bodies_response(response, valid) == (state.requeued(), seq![response.peer_id]),
        state.requeued().downloaded_blocks == state.downloaded_blocks,
        state.requeued().pending_headers =~= state.pending_headers + state.in_flight_bodies,
        state.requeued().new_requests().bodies is Some,
        state.after(RangeEvent::Bodies(Poll::Ready(Err(error))), range_valid, valid) == (RangeState {
            progress: true,
            ..state.requeued()
        }).round(Seq::empty()),
{
}

/// The pipeline goes on where it stopped: after accepted headers, the next request starts with the
/// parent of the lowest of them, and as many headers fewer are missing.
pub proof fn law_headers_go_on_with_the_parent<B>(
    state: RangeState<B>,
    response: WithPeerId<Vec<Header>>,
    headers: Seq<SealedHeader>,
)
    requires
        state.wf(),
        state.headers_request,
        state.candidate(response.data@) == Some(headers),
        headers.len() > 0,
    ensures
        state.on_headers_response(response, true).0.next_request_hash
            == headers.last().header.parent_hash,
        forall|i: int|
            0 <= i < headers.len() ==> headers.last().header.number <= (
            #[trigger] headers[i]).header.number,
        state.on_headers_response(response, true).0.missing_headers() == state.missing_headers()
            - response.data@.len(),
        state.on_headers_response(response, true).1 =~= Seq::empty(),
{
    let all = crate::full_block_range::all_sealed(response.data@);
    crate::order::law_falling_permutes(all);
    crate::order::law_falling_is_falling(all);
    assert forall|i: int| 0 <= i < headers.len() implies headers.last().header.number <= (
    #[trigger] headers[i]).header.number by {
        use_falling(headers, i, headers.len() - 1);
    }
}

pub(crate) proof fn lemma_all_accepted<B>(headers: Seq<SealedHeader>, bodies: Seq<B>, valid: Seq<bool>)
    requires
        forall|i: int| 0 <= i < headers.len() ==> #[trigger] valid[i],
    ensures
        crate::full_block_range::refused(headers, valid) == Seq::<SealedHeader>::empty(),
        crate::full_block_range::assembled(headers, bodies, valid) == Seq::new(
            headers.len(),
            |i: int| SealedBlock { header: headers[i], body: bodies[i] },
        ),
    decreases headers.len(),
{
    if headers.len() > 0 {
        lemma_all_accepted(headers.drop_last(), bodies, valid);
        assert(valid[headers.len() - 1]);
    }
    assert(crate::full_block_range::assembled(headers, bodies, valid) =~= Seq::new(
        headers.len(),
        |i: int| SealedBlock { header: headers[i], body: bodies[i] },
    ));
}

/// If the peers send what is requested and the consensus rules accept it, a range of one batch is
/// downloaded with one headers request and one bodies request, and nobody is reported. Each block
/// is a header with the body that came at its place.
pub proof fn law_one_batch_makes_the_range<B>(
    hash: B256,
    headers: WithPeerId<Vec<Header>>,
    bodies: WithPeerId<Vec<B>>,
    valid: Seq<bool>,
)
    requires
        0 < headers.data@.len() <= PIPELINE_BATCH_SIZE,
        bodies.data@.len() == headers.data@.len() == valid.len(),
        forall|i: int| 0 <= i < valid.len() ==> #[trigger] valid[i],
        RangeState::<B>::start(hash, headers.data@.len() as u64).can_take(
            crate::full_block_range::all_sealed(headers.data@),
        ),
    ensures
        ({
            let count = headers.data@.len() as u64;
            let falling = crate::order::falling(
                crate::full_block_range::all_sealed(headers.data@),
            );
            let started = RangeState::<B>::start(hash, count).after(RangeEvent::Start, true, valid);
            let headers_there = started.state.after(
                RangeEvent::Headers(Poll::Ready(Ok(headers))),
                true,
                valid,
            );
            let bodies_there = headers_there.state.after(
                RangeEvent::Bodies(Poll::Ready(Ok(bodies))),
                true,
                valid,
            );
            &&& started.step is PollHeaders
            &&& headers_there.step is PollBodies
            &&& headers_there.reports.len() == 0
            &&& headers_there.requests.bodies == Some(
                falling.map_values(|header: SealedHeader| header.hash),
            )
            &&& bodies_there.reports.len() == 0
            &&& bodies_there.step == RangeStepView::Ready(
                Seq::new(
                    count as nat,
                    |i: int| SealedBlock { header: falling[i], body: bodies.data@[i] },
                ),
            )
        }),
{
    let count = headers.data@.len() as u64;
    let all = crate::full_block_range::all_sealed(headers.data@);
    let falling = crate::order::falling(all);
    crate::order::law_falling_permutes(all);
    crate::order::law_falling_is_falling(all);
    let start = RangeState::<B>::start(hash, count);
    let started = start.after(RangeEvent::Start, true, valid).state;
    assert forall|i: int| 0 <= i < all.len() implies started.with_start(all).fits_range(
        #[trigger] all[i],
    ) by {
        assert(start.with_start(all).fits_range(all[i]));
    }
    assert(started.candidate(headers.data@) == Some(falling));
    assert(started.pending_headers + falling =~= falling);
    assert(falling.take(falling.len() as int) =~= falling);
    assert(falling.skip(falling.len() as int) =~= Seq::empty());
    let waiting = started.after(RangeEvent::Headers(Poll::Ready(Ok(headers))), true, valid).state;
    assert(waiting.in_flight_bodies =~= falling);
    lemma_all_accepted(falling, bodies.data@, valid);
    let blocks = Seq::new(
        count as nat,
        |i: int| SealedBlock { header: falling[i], body: bodies.data@[i] },
    );
    assert(waiting.downloaded_blocks + blocks =~= blocks);
    assert forall|i: int, j: int| 0 <= i <= j < blocks.len() implies
        crate::order::Numbered::block_number(&#[trigger] blocks[i])
        >= crate::order::Numbered::block_number(&#[trigger] blocks[j]) by {
        use_falling(falling, i, j);
    }
    crate::order::law_falling_keeps_falling(blocks);
}

} // verus!
