//! What a range download makes of a chain: if the headers that it takes in continue a chain, it
//! yields the blocks of that chain, in any number of batches.
use vstd::prelude::*;

use crate::full_block_range::{RangeEvent, RangeOutcome, RangeState, RangeStepView};
use crate::primitives::{Header, PeerId, SealedBlock, SealedHeader, WithPeerId, B256};
use crate::request::{BlockHashOrNumber, Poll};

verus! {

/// The header at `i + 1` is the parent of the one at `i`.
pub open spec fn parent_follows(chain: Seq<Header>, i: int) -> bool {
    chain[i].parent_hash == chain[i + 1].seal()
}

/// The headers of a chain, the highest first: it starts with the block with the hash, each header
/// is followed by its parent, and the numbers count down.
pub open spec fn is_chain(chain: Seq<Header>, hash: B256) -> bool {
    &&& chain.len() > 0 ==> chain[0].seal() == hash
    &&& forall|i: int| 0 <= i < chain.len() - 1 ==> #[trigger] parent_follows(chain, i)
    &&& forall|i: int|
        0 <= i < chain.len() ==> (#[trigger] chain[i]).number == chain[0].number - i
}

/// The download is one of the blocks of the chain: the headers that it has are those at the top of
/// the chain, as many as it downloaded, and it goes on with the next.
pub open spec fn on_chain<B>(state: RangeState<B>, chain: Seq<Header>) -> bool {
    &&& state.wf()
    &&& !state.is_finished()
    &&& chain.len() == state.total_to_download
    &&& is_chain(chain, state.start_hash)
    &&& state.headers_downloaded > 0 ==> state.start_number == chain[0].number
    &&& state.headers_downloaded < chain.len() ==> state.next_request_hash
        == chain[state.headers_downloaded as int].seal()
    &&& forall|i: int|
        0 <= i < state.headers_downloaded ==> state.has_header(
            crate::primitives::sealed(#[trigger] chain[i]),
        )
    &&& forall|header: SealedHeader| #[trigger]
        state.has_header(header) ==> exists|i: int|
            0 <= i < state.headers_downloaded && crate::primitives::sealed(#[trigger] chain[i])
                == header
}

/// The headers are the next ones of the chain, as many as they are.
pub open spec fn continues_chain<B>(
    state: RangeState<B>,
    chain: Seq<Header>,
    headers: Seq<Header>,
) -> bool {
    &&& state.headers_downloaded + headers.len() <= chain.len()
    &&& headers == chain.subrange(
        state.headers_downloaded as int,
        state.headers_downloaded + headers.len(),
    )
}

/// The headers that an event adds to the download, if any, are the next ones of the chain.
pub open spec fn event_continues_chain<B>(
    state: RangeState<B>,
    chain: Seq<Header>,
    event: RangeEvent<B>,
    range_valid: bool,
) -> bool {
    event matches RangeEvent::Headers(Poll::Ready(Ok(response))) ==> {
        ||| continues_chain(state, chain, response.data@)
        ||| state.candidate(response.data@) is None
        ||| !range_valid
    }
}

/// The blocks are those of the chain, one for each of its headers, in the order of the chain.
pub open spec fn are_blocks_of<B>(blocks: Seq<SealedBlock<B>>, chain: Seq<Header>) -> bool {
    &&& blocks.len() == chain.len()
    &&& forall|i: int|
        0 <= i < blocks.len() ==> (#[trigger] blocks[i]).header == crate::primitives::sealed(
            chain[i],
        )
}

/// A download starts on every chain that starts with the requested hash and is as long as
/// requested.
pub proof fn law_download_starts_on_the_chain<B>(chain: Seq<Header>, hash: B256, count: u64)
    requires
        is_chain(chain, hash),
        chain.len() == count,
    ensures
        on_chain(RangeState::<B>::start(hash, count), chain),
{
}

/// A headers request starts with the next header of the chain, so an honest peer answers with
/// headers that continue the chain. Such headers can belong to the range, and they are kept in
/// their order.
pub proof fn law_chain_headers_are_taken<B>(
    state: RangeState<B>,
    chain: Seq<Header>,
    headers: Seq<Header>,
)
    requires
        on_chain(state, chain),
        continues_chain(state, chain, headers),
        headers.len() > 0,
    ensures
        state.next_headers().start == BlockHashOrNumber::Hash(headers[0].seal()),
        state.candidate(headers) == Some(crate::full_block_range::all_sealed(headers)),
{
    let done = state.headers_downloaded as int;
    let all = crate::full_block_range::all_sealed(headers);
    assert(headers[0] == chain[done]);
    assert forall|i: int| 0 <= i < all.len() implies state.with_start(all).fits_range(
        #[trigger] all[i],
    ) by {
        assert(headers[i] == chain[done + i]);
    }
    assert forall|i: int, j: int| 0 <= i <= j < all.len() implies
        crate::order::Numbered::block_number(&#[trigger] all[i])
        >= crate::order::Numbered::block_number(&#[trigger] all[j]) by {
        assert(headers[i] == chain[done + i]);
        assert(headers[j] == chain[done + j]);
    }
    crate::order::law_falling_keeps_falling(all);
}

proof fn lemma_handled_on_chain<B>(
    state: RangeState<B>,
    chain: Seq<Header>,
    event: RangeEvent<B>,
    range_valid: bool,
    valid: Seq<bool>,
)
    requires
        on_chain(state, chain),
        event_continues_chain(state, chain, event, range_valid),
    ensures
        on_chain(
            crate::full_block_range_laws::handled(state, event, range_valid, valid),
            chain,
        ),
{
    let next = crate::full_block_range_laws::handled(state, event, range_valid, valid);
    let added = crate::full_block_range_laws::added_headers(state, event, range_valid);
    let done = state.headers_downloaded as int;
    crate::full_block_range_laws::lemma_handled(state, event, range_valid, valid);
    if added.len() > 0 {
        if let RangeEvent::Headers(Poll::Ready(Ok(response))) = event {
            let headers = response.data@;
            crate::order::law_falling_permutes(crate::full_block_range::all_sealed(headers));
            law_chain_headers_are_taken(state, chain, headers);
            assert(forall|i: int| 0 <= i < headers.len() ==> headers[i] == chain[done + i]);
            assert forall|i: int| 0 <= i < added.len() implies (#[trigger] added[i])
                == crate::primitives::sealed(chain[done + i]) by {
                assert(headers[i] == chain[done + i]);
            }
            let n = added.len() as int;
            assert(added.last() == crate::primitives::sealed(chain[done + n - 1]));
            if done + n < chain.len() {
                assert(parent_follows(chain, done + n - 1));
            }
            assert forall|i: int| 0 <= i < n implies next.has_header(#[trigger] added[i]) by {
                assert(next.pending_headers[state.pending_headers.len() + i] == added[i]);
            }
            assert(added[0] == crate::primitives::sealed(chain[done]));
        }
    } else if let RangeEvent::Headers(Poll::Ready(Ok(response))) = event {
        crate::order::law_falling_permutes(
            crate::full_block_range::all_sealed(response.data@),
        );
        assert(state.pending_headers + added =~= state.pending_headers);
    }
    assert(next.headers_downloaded == state.headers_downloaded + added.len());
    assert forall|i: int| 0 <= i < next.headers_downloaded implies next.has_header(
        crate::primitives::sealed(#[trigger] chain[i]),
    ) by {
        if i < done {
            assert(state.has_header(crate::primitives::sealed(chain[i])));
        } else {
            assert(next.has_header(added[i - done]));
        }
    }
    assert forall|header: SealedHeader| #[trigger] next.has_header(header) implies exists|i: int|
        0 <= i < next.headers_downloaded && crate::primitives::sealed(#[trigger] chain[i])
            == header by {
        if state.has_header(header) {
            let i = choose|i: int|
                0 <= i < state.headers_downloaded && crate::primitives::sealed(#[trigger] chain[i])
                    == header;
            assert(crate::primitives::sealed(chain[i]) == header);
        } else {
            let i = choose|i: int| 0 <= i < added.len() && added[i] == header;
            assert(crate::primitives::sealed(chain[done + i]) == header);
        }
    }
    if next.is_finished() {
        assert(next.has_header(crate::primitives::sealed(chain[0])));
    }
}

proof fn lemma_round_on_chain<B>(state: RangeState<B>, chain: Seq<Header>, reports: Seq<PeerId>)
    requires
        on_chain(state, chain),
        !state.is_complete(),
    ensures
        on_chain(state.round(reports).state, chain),
{
    let next = state.round(reports).state;
    crate::full_block_range_laws::lemma_requests_keep_headers(state);
    crate::full_block_range_laws::lemma_same_headers(state.with_new_requests(), next);
    crate::full_block_range_laws::lemma_round_is_well_formed(state, reports);
    assert forall|i: int| 0 <= i < next.headers_downloaded implies next.has_header(
        crate::primitives::sealed(#[trigger] chain[i]),
    ) by {
        assert(state.has_header(crate::primitives::sealed(chain[i])));
        assert(state.with_new_requests().has_header(crate::primitives::sealed(chain[i])));
    }
    assert forall|header: SealedHeader| #[trigger] next.has_header(header) implies exists|i: int|
        0 <= i < next.headers_downloaded && crate::primitives::sealed(#[trigger] chain[i])
            == header by {
        assert(state.with_new_requests().has_header(header));
        assert(state.has_header(header));
    }
    if next.is_finished() {
        assert(next.has_header(crate::primitives::sealed(chain[0])));
    }
}

proof fn lemma_complete_on_chain<B>(state: RangeState<B>, chain: Seq<Header>)
    requires
        on_chain(state, chain),
        state.is_complete(),
    ensures
        are_blocks_of(crate::order::falling(state.downloaded_blocks), chain),
{
    let unsorted = state.downloaded_blocks;
    let blocks = crate::order::falling(unsorted);
    crate::order::law_falling_permutes(unsorted);
    assert(unsorted.len() == chain.len());
    if chain.len() > 0 {
        let top = chain[0].number as int;
        assert forall|i: int| 0 <= i < unsorted.len() implies crate::order::has_number(
            unsorted,
            #[trigger] (top - i),
        ) by {
            let header = crate::primitives::sealed(chain[i]);
            assert(state.has_header(header));
            let k = choose|k: int|
                0 <= k < unsorted.len() && (#[trigger] unsorted[k]).header == header;
            assert(crate::order::Numbered::block_number(&unsorted[k]) == top - i);
        }
        assert forall|i: int| 0 <= i < blocks.len() implies (#[trigger] blocks[i]).header
            == crate::primitives::sealed(chain[i]) by {
            crate::order::law_falling_counts_down(unsorted, top, i);
            assert(blocks.contains(blocks[i]));
            let k = choose|k: int| 0 <= k < unsorted.len() && unsorted[k] == blocks[i];
            assert(unsorted[k].header == blocks[i].header);
            assert(state.has_header(blocks[i].header));
            let j = choose|j: int|
                0 <= j < state.headers_downloaded && crate::primitives::sealed(#[trigger] chain[j])
                    == blocks[i].header;
            assert(chain[j].number == top - j);
        }
    }
}

/// A download stays on the chain, whatever else happens: requests may fail, bodies may be refused
/// or missing, and headers may be refused, as long as the headers that are taken in continue the
/// chain. The blocks that it yields are those of the chain.
pub proof fn law_download_stays_on_the_chain<B>(
    state: RangeState<B>,
    chain: Seq<Header>,
    event: RangeEvent<B>,
    range_valid: bool,
    valid: Seq<bool>,
)
    requires
        on_chain(state, chain),
        state.accepts(event),
        event_continues_chain(state, chain, event, range_valid),
    ensures
        match state.after(event, range_valid, valid).step {
            RangeStepView::Ready(blocks) => are_blocks_of(blocks, chain),
            _ => on_chain(state.after(event, range_valid, valid).state, chain),
        },
{
    let next = crate::full_block_range_laws::handled(state, event, range_valid, valid);
    let outcome = state.after(event, range_valid, valid);
    lemma_handled_on_chain(state, chain, event, range_valid, valid);
    if next.is_complete() {
        lemma_complete_on_chain(next, chain);
    } else {
        lemma_round_on_chain(next, chain, outcome.reports);
    }
}

/// How many responses a download needs at most: each brings at least one header or one body.
pub open spec fn responses_needed<B>(state: RangeState<B>) -> int {
    2 * state.missing_headers() + state.pending_headers.len() + state.in_flight_bodies.len()
}

/// The consensus rules accept each of `count` bodies.
pub open spec fn all_accepted(count: nat) -> Seq<bool> {
    Seq::new(count, |i: int| true)
}

/// Every headers request is answered with at least one header, within the limit of the request,
/// and the headers continue the chain.
pub open spec fn answers_headers<B>(
    headers_of: spec_fn(RangeState<B>) -> WithPeerId<Vec<Header>>,
    chain: Seq<Header>,
) -> bool {
    forall|state: RangeState<B>|
        on_chain(state, chain) && state.headers_request ==> {
            let headers = (#[trigger] headers_of(state)).data@;
            &&& 0 < headers.len() <= state.next_headers().limit
            &&& continues_chain(state, chain, headers)
        }
}

/// Every bodies request is answered in full, with a body for each header that belongs to it.
pub open spec fn answers_bodies<B>(
    bodies_of: spec_fn(RangeState<B>) -> WithPeerId<Vec<B>>,
    belongs: spec_fn(B, SealedHeader) -> bool,
    chain: Seq<Header>,
) -> bool {
    forall|state: RangeState<B>|
        on_chain(state, chain) && state.bodies_request ==> {
            let bodies = (#[trigger] bodies_of(state)).data@;
            &&& bodies.len() == state.in_flight_bodies.len()
            &&& forall|i: int|
                0 <= i < bodies.len() ==> belongs(#[trigger] bodies[i], state.in_flight_bodies[i])
        }
}

/// The body of each block belongs to its header.
pub open spec fn all_belong<B>(
    blocks: Seq<SealedBlock<B>>,
    belongs: spec_fn(B, SealedHeader) -> bool,
) -> bool {
    forall|i: int|
        0 <= i < blocks.len() ==> belongs((#[trigger] blocks[i]).body, blocks[i].header)
}

/// What a download led to after it was driven on from an outcome, with every request answered and
/// accepted, until it is done or `responses` responses came. The reports are those of all events.
pub open spec fn driven<B>(
    outcome: RangeOutcome<B>,
    headers_of: spec_fn(RangeState<B>) -> WithPeerId<Vec<Header>>,
    bodies_of: spec_fn(RangeState<B>) -> WithPeerId<Vec<B>>,
    responses: nat,
) -> RangeOutcome<B>
    decreases responses,
{
    if responses == 0 {
        outcome
    } else {
        match next_event(outcome, headers_of, bodies_of) {
            Some(event) => {
                let next = outcome.state.after(
                    event,
                    true,
                    all_accepted(outcome.state.in_flight_bodies.len()),
                );
                driven(
                    RangeOutcome { reports: outcome.reports + next.reports, ..next },
                    headers_of,
                    bodies_of,
                    (responses - 1) as nat,
                )
            },
            None => outcome,
        }
    }
}

/// The answer to the request that a step asks to poll.
pub open spec fn next_event<B>(
    outcome: RangeOutcome<B>,
    headers_of: spec_fn(RangeState<B>) -> WithPeerId<Vec<Header>>,
    bodies_of: spec_fn(RangeState<B>) -> WithPeerId<Vec<B>>,
) -> Option<RangeEvent<B>> {
    match outcome.step {
        RangeStepView::PollHeaders => Some(
            RangeEvent::Headers(Poll::Ready(Ok(headers_of(outcome.state)))),
        ),
        RangeStepView::PollBodies => Some(
            RangeEvent::Bodies(Poll::Ready(Ok(bodies_of(outcome.state)))),
        ),
        _ => None,
    }
}

/// A download on the chain that is driven on by answers to its requests: it asks for one of its
/// requests to be polled, or it is done.
spec fn is_driven<B>(
    outcome: RangeOutcome<B>,
    belongs: spec_fn(B, SealedHeader) -> bool,
    chain: Seq<Header>,
) -> bool {
    match outcome.step {
        RangeStepView::PollHeaders => {
            &&& on_chain(outcome.state, chain)
            &&& all_belong(outcome.state.downloaded_blocks, belongs)
            &&& outcome.state.headers_request
        },
        RangeStepView::PollBodies => {
            &&& on_chain(outcome.state, chain)
            &&& all_belong(outcome.state.downloaded_blocks, belongs)
            &&& outcome.state.bodies_request
        },
        RangeStepView::Ready(blocks) => are_blocks_of(blocks, chain) && all_belong(blocks, belongs),
        RangeStepView::Pending => false,
    }
}

proof fn lemma_falling_belongs<B>(
    blocks: Seq<SealedBlock<B>>,
    belongs: spec_fn(B, SealedHeader) -> bool,
)
    requires
        all_belong(blocks, belongs),
    ensures
        all_belong(crate::order::falling(blocks), belongs),
{
    let sorted = crate::order::falling(blocks);
    crate::order::law_falling_permutes(blocks);
    assert forall|i: int| 0 <= i < sorted.len() implies belongs(
        (#[trigger] sorted[i]).body,
        sorted[i].header,
    ) by {
        assert(sorted.contains(sorted[i]));
        let k = choose|k: int| 0 <= k < blocks.len() && blocks[k] == sorted[i];
        assert(belongs(blocks[k].body, blocks[k].header));
    }
}

proof fn lemma_drive<B>(
    outcome: RangeOutcome<B>,
    headers_of: spec_fn(RangeState<B>) -> WithPeerId<Vec<Header>>,
    bodies_of: spec_fn(RangeState<B>) -> WithPeerId<Vec<B>>,
    belongs: spec_fn(B, SealedHeader) -> bool,
    chain: Seq<Header>,
    event: RangeEvent<B>,
)
    requires
        is_driven(outcome, belongs, chain),
        answers_headers(headers_of, chain),
        answers_bodies(bodies_of, belongs, chain),
        next_event(outcome, headers_of, bodies_of) == Some(event),
    ensures
        ({
            let next = outcome.state.after(
                event,
                true,
                all_accepted(outcome.state.in_flight_bodies.len()),
            );
            &&& is_driven(next, belongs, chain)
            &&& next.reports.len() == 0
            &&& next.step is Ready || responses_needed(next.state) < responses_needed(
                outcome.state,
            )
        }),
{
    let state = outcome.state;
    let valid = all_accepted(state.in_flight_bodies.len());
    let handled = crate::full_block_range_laws::handled(state, event, true, valid);
    let next = state.after(event, true, valid);
    law_download_stays_on_the_chain(state, chain, event, true, valid);
    lemma_handled_on_chain(state, chain, event, true, valid);
    match event {
        RangeEvent::Headers(Poll::Ready(Ok(response))) => {
            assert(response == headers_of(state));
            law_chain_headers_are_taken(state, chain, response.data@);
        },
        RangeEvent::Bodies(Poll::Ready(Ok(response))) => {
            assert(response == bodies_of(state));
            let bodies = response.data@;
            crate::full_block_range_laws::lemma_all_accepted(
                state.in_flight_bodies,
                bodies,
                valid,
            );
            let blocks = crate::full_block_range::assembled(state.in_flight_bodies, bodies, valid);
            assert forall|i: int| 0 <= i < handled.downloaded_blocks.len() implies belongs(
                (#[trigger] handled.downloaded_blocks[i]).body,
                handled.downloaded_blocks[i].header,
            ) by {
                let before = state.downloaded_blocks.len();
                if i < before {
                    assert(belongs(
                        state.downloaded_blocks[i].body,
                        state.downloaded_blocks[i].header,
                    ));
                } else {
                    assert(handled.downloaded_blocks[i] == blocks[i - before]);
                    assert(belongs(bodies[i - before], state.in_flight_bodies[i - before]));
                }
            }
        },
        _ => {},
    }
    lemma_falling_belongs(handled.downloaded_blocks, belongs);
}

proof fn lemma_driven<B>(
    outcome: RangeOutcome<B>,
    headers_of: spec_fn(RangeState<B>) -> WithPeerId<Vec<Header>>,
    bodies_of: spec_fn(RangeState<B>) -> WithPeerId<Vec<B>>,
    belongs: spec_fn(B, SealedHeader) -> bool,
    chain: Seq<Header>,
    responses: nat,
)
    requires
        is_driven(outcome, belongs, chain),
        outcome.reports.len() == 0,
        answers_headers(headers_of, chain),
        answers_bodies(bodies_of, belongs, chain),
        outcome.step is Ready || responses_needed(outcome.state) <= responses,
    ensures
        driven(outcome, headers_of, bodies_of, responses).reports.len() == 0,
        driven(outcome, headers_of, bodies_of, responses).step matches RangeStepView::Ready(blocks)
            && are_blocks_of(blocks, chain) && all_belong(blocks, belongs),
    decreases responses,
{
    if let Some(event) = next_event(outcome, headers_of, bodies_of) {
        lemma_drive(outcome, headers_of, bodies_of, belongs, chain, event);
        let next = outcome.state.after(
            event,
            true,
            all_accepted(outcome.state.in_flight_bodies.len()),
        );
        lemma_driven(
            RangeOutcome { reports: outcome.reports + next.reports, ..next },
            headers_of,
            bodies_of,
            belongs,
            chain,
            (responses - 1) as nat,
        );
    }
}

/// If every headers reply is a continuation of the chain within the limit of its request, every
/// bodies reply is full, and the consensus rules accept them, then a download of any number of
/// blocks, in any number of batches, is done after two responses for each block at most. It yields
/// one block for each header of the chain, in falling order, each with the body that came for it,
/// and nobody is reported.
///
/// `belongs` is any relation between bodies and headers that the replies keep to; it holds of the
/// blocks.
pub proof fn law_honest_peers_complete_the_range<B>(
    hash: B256,
    count: u64,
    chain: Seq<Header>,
    headers_of: spec_fn(RangeState<B>) -> WithPeerId<Vec<Header>>,
    bodies_of: spec_fn(RangeState<B>) -> WithPeerId<Vec<B>>,
    belongs: spec_fn(B, SealedHeader) -> bool,
)
    requires
        is_chain(chain, hash),
        chain.len() == count,
        answers_headers(headers_of, chain),
        answers_bodies(bodies_of, belongs, chain),
    ensures
        ({
            let started = RangeState::<B>::start(hash, count).after(
                RangeEvent::Start,
                true,
                Seq::empty(),
            );
            let outcome = driven(started, headers_of, bodies_of, 2 * count as nat);
            &&& outcome.reports.len() == 0
            &&& outcome.step matches RangeStepView::Ready(blocks) && {
                &&& are_blocks_of(blocks, chain)
                &&& all_belong(blocks, belongs)
                &&& crate::order::is_falling(blocks)
            }
        }),
{
    let start = RangeState::<B>::start(hash, count);
    let started = start.after(RangeEvent::Start, true, Seq::empty());
    law_download_starts_on_the_chain::<B>(chain, hash, count);
    law_download_stays_on_the_chain(start, chain, RangeEvent::Start, true, Seq::empty());
    lemma_falling_belongs(start.downloaded_blocks, belongs);
    lemma_driven(started, headers_of, bodies_of, belongs, chain, 2 * count as nat);
    let outcome = driven(started, headers_of, bodies_of, 2 * count as nat);
    if let RangeStepView::Ready(blocks) = outcome.step {
        law_chain_blocks_fall(blocks, chain, hash);
    }
}

/// The blocks of a chain count down from the number of the first, and so they are in falling
/// order.
pub proof fn law_chain_blocks_fall<B>(
    blocks: Seq<SealedBlock<B>>,
    chain: Seq<Header>,
    hash: B256,
)
    requires
        is_chain(chain, hash),
        are_blocks_of(blocks, chain),
    ensures
        crate::order::is_falling(blocks),
        forall|i: int|
            0 <= i < blocks.len() ==> (#[trigger] blocks[i]).header.header.number
                == chain[0].number - i,
        blocks.len() > 0 ==> blocks[0].header.hash == hash,
{
    assert forall|i: int| 0 <= i < blocks.len() implies (
    #[trigger] blocks[i]).header.header.number == chain[0].number - i by {
        assert(chain[i].number == chain[0].number - i);
    }
    assert forall|i: int, j: int| 0 <= i <= j < blocks.len() implies
        crate::order::Numbered::block_number(&#[trigger] blocks[i])
        >= crate::order::Numbered::block_number(&#[trigger] blocks[j]) by {}
}

} // verus!
