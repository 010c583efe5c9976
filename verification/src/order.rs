//! Falling block order: the highest block number first.
use vstd::prelude::*;

use crate::primitives::{SealedBlock, SealedHeader};

verus! {

/// A value that belongs to a block with a number.
pub trait Numbered: Sized {
    /// The number of the block.
    spec fn block_number(&self) -> u64;

    /// Returns the number of the block.
    fn get_block_number(&self) -> (number: u64)
        ensures
            number == self.block_number(),
    ;
}

impl Numbered for SealedHeader {
    open spec fn block_number(&self) -> u64 {
        self.header.number
    }

    fn get_block_number(&self) -> (number: u64) {
        self.header.number
    }
}

impl<B> Numbered for SealedBlock<B> {
    open spec fn block_number(&self) -> u64 {
        self.header.header.number
    }

    fn get_block_number(&self) -> (number: u64) {
        self.header.header.number
    }
}

/// No value stands behind one with a lower number.
pub open spec fn is_falling<T: Numbered>(s: Seq<T>) -> bool {
    forall|i: int, j: int|
        0 <= i <= j < s.len() ==> (#[trigger] s[i]).block_number() >= (
        #[trigger] s[j]).block_number()
}

/// `s` with `item` put before the first value that has no higher number.
pub open spec fn place_falling<T: Numbered>(item: T, s: Seq<T>) -> Seq<T>
    decreases s.len(),
{
    if s.len() == 0 || s[0].block_number() <= item.block_number() {
        seq![item] + s
    } else {
        seq![s[0]] + place_falling(item, s.drop_first())
    }
}

/// The values of `s` in falling order; those with equal numbers keep their order.
pub open spec fn falling<T: Numbered>(s: Seq<T>) -> Seq<T>
    decreases s.len(),
{
    if s.len() == 0 {
        s
    } else {
        place_falling(s[0], falling(s.drop_first()))
    }
}

proof fn lemma_place_falling_at<T: Numbered>(item: T, s: Seq<T>, at: int)
    requires
        0 <= at <= s.len(),
        forall|i: int| 0 <= i < at ==> (#[trigger] s[i]).block_number() > item.block_number(),
        at < s.len() ==> s[at].block_number() <= item.block_number(),
    ensures
        place_falling(item, s) == s.insert(at, item),
    decreases s.len(),
{
    if at == 0 {
        assert(place_falling(item, s) =~= s.insert(0, item));
    } else {
        assert(s[0].block_number() > item.block_number());
        let tail = s.drop_first();
        assert forall|i: int| 0 <= i < at - 1 implies (#[trigger] tail[i]).block_number()
            > item.block_number() by {
            assert(tail[i] == s[i + 1]);
        }
        lemma_place_falling_at(item, tail, at - 1);
        assert(place_falling(item, s) =~= s.insert(at, item));
    }
}

proof fn lemma_place_falling<T: Numbered>(item: T, s: Seq<T>)
    ensures
        place_falling(item, s).to_multiset() == s.to_multiset().insert(item),
        forall|i: int|
            0 <= i < place_falling(item, s).len() ==> #[trigger] place_falling(item, s)[i] == item
                || s.contains(place_falling(item, s)[i]),
        is_falling(s) ==> is_falling(place_falling(item, s)),
    decreases s.len(),
{
    broadcast use vstd::seq_lib::group_to_multiset_ensures;

    let placed = place_falling(item, s);
    if s.len() == 0 || s[0].block_number() <= item.block_number() {
        assert(placed =~= s.insert(0, item));
    } else {
        let tail = s.drop_first();
        let rest = place_falling(item, tail);
        lemma_place_falling(item, tail);
        assert(placed =~= rest.insert(0, s[0]));
        assert(s =~= tail.insert(0, s[0]));
        assert(placed.to_multiset() =~= s.to_multiset().insert(item));
        if is_falling(s) {
            assert(is_falling(tail));
            assert forall|i: int| 0 <= i < rest.len() implies (#[trigger] rest[i]).block_number()
                <= s[0].block_number() by {
                if rest[i] != item {
                    let k = choose|k: int| 0 <= k < tail.len() && tail[k] == rest[i];
                    assert(s[k + 1] == rest[i]);
                }
            }
        }
    }
    assert forall|i: int| 0 <= i < placed.len() implies #[trigger] placed[i] == item || s.contains(
        placed[i],
    ) by {
        assert(placed.contains(placed[i]));
        assert(placed.to_multiset().count(placed[i]) > 0);
        if placed[i] != item {
            assert(s.to_multiset().count(placed[i]) > 0);
        }
    }
}

/// Falling order keeps every value: none is lost, added or repeated.
pub proof fn law_falling_permutes<T: Numbered>(s: Seq<T>)
    ensures
        falling(s).to_multiset() == s.to_multiset(),
        falling(s).len() == s.len(),
        forall|item: T| #[trigger] falling(s).contains(item) <==> s.contains(item),
    decreases s.len(),
{
    broadcast use vstd::seq_lib::group_to_multiset_ensures;

    if s.len() > 0 {
        let tail = s.drop_first();
        law_falling_permutes(tail);
        lemma_place_falling(s[0], falling(tail));
        assert(s =~= tail.insert(0, s[0]));
    }
    assert(falling(s).len() == falling(s).to_multiset().len());
    assert forall|item: T| #[trigger] falling(s).contains(item) <==> s.contains(item) by {
        assert(falling(s).to_multiset().count(item) == s.to_multiset().count(item));
    }
}

/// Falling order has the highest number first, and no number stands behind a lower one.
pub proof fn law_falling_is_falling<T: Numbered>(s: Seq<T>)
    ensures
        is_falling(falling(s)),
    decreases s.len(),
{
    if s.len() > 0 {
        law_falling_is_falling(s.drop_first());
        lemma_place_falling(s[0], falling(s.drop_first()));
    }
}

/// Headers in falling order are the same headers, and no block number stands behind a lower one.
pub proof fn law_headers_fall_by_number(headers: Seq<SealedHeader>)
    ensures
        falling(headers).to_multiset() == headers.to_multiset(),
        falling(headers).len() == headers.len(),
        forall|i: int, j: int|
            0 <= i <= j < headers.len() ==> (#[trigger] falling(headers)[i]).header.number >= (
            #[trigger] falling(headers)[j]).header.number,
{
    law_falling_permutes(headers);
    law_falling_is_falling(headers);
    let sorted = falling(headers);
    assert forall|i: int, j: int| 0 <= i <= j < headers.len() implies (
    #[trigger] sorted[i]).header.number >= (#[trigger] sorted[j]).header.number by {
        assert(sorted[i].block_number() >= sorted[j].block_number());
    }
}

/// Blocks in falling order are the same blocks, and no block number stands behind a lower one.
pub proof fn law_blocks_fall_by_number<B>(blocks: Seq<SealedBlock<B>>)
    ensures
        falling(blocks).to_multiset() == blocks.to_multiset(),
        falling(blocks).len() == blocks.len(),
        forall|i: int, j: int|
            0 <= i <= j < blocks.len() ==> (#[trigger] falling(blocks)[i]).header.header.number >= (
            #[trigger] falling(blocks)[j]).header.header.number,
{
    law_falling_permutes(blocks);
    law_falling_is_falling(blocks);
    let sorted = falling(blocks);
    assert forall|i: int, j: int| 0 <= i <= j < blocks.len() implies (
    #[trigger] sorted[i]).header.header.number >= (#[trigger] sorted[j]).header.header.number by {
        assert(sorted[i].block_number() >= sorted[j].block_number());
    }
}

/// What is in falling order already stays as it is.
pub proof fn law_falling_keeps_falling<T: Numbered>(s: Seq<T>)
    requires
        is_falling(s),
    ensures
        falling(s) == s,
    decreases s.len(),
{
    if s.len() > 0 {
        let tail = s.drop_first();
        assert forall|i: int, j: int| 0 <= i <= j < tail.len() implies (
        #[trigger] tail[i]).block_number() >= (#[trigger] tail[j]).block_number() by {
            assert(tail[i] == s[i + 1] && tail[j] == s[j + 1]);
        }
        law_falling_keeps_falling(tail);
        if tail.len() > 0 {
            assert(s[0].block_number() >= s[1].block_number());
        }
        assert(place_falling(s[0], tail) =~= s);
    }
}

/// Where the number `top - i` stands in `s`.
spec fn place_of<T: Numbered>(s: Seq<T>, top: int, i: int) -> int {
    choose|k: int| 0 <= k < s.len() && (#[trigger] s[k]).block_number() == top - i
}

/// Each of the numbers `top`, `top - 1` and so on, one for each value of `s`, stands in `s`.
pub open spec fn is_run<T: Numbered>(s: Seq<T>, top: int) -> bool {
    forall|i: int| 0 <= i < s.len() ==> has_number(s, #[trigger] (top - i))
}

/// A value of `s` has this number.
pub open spec fn has_number<T: Numbered>(s: Seq<T>, number: int) -> bool {
    exists|k: int| 0 <= k < s.len() && (#[trigger] s[k]).block_number() == number
}

proof fn lemma_place_of<T: Numbered>(s: Seq<T>, top: int, i: int)
    requires
        is_falling(s),
        is_run(s, top),
        0 <= i < s.len(),
    ensures
        i <= place_of(s, top, i) < s.len(),
        s[place_of(s, top, i)].block_number() == top - i,
    decreases i,
{
    assert(has_number(s, top - i));
    if i > 0 {
        lemma_place_of(s, top, i - 1);
        let here = place_of(s, top, i);
        let before = place_of(s, top, i - 1);
        if here <= before {
            assert(s[here].block_number() >= s[before].block_number());
        }
    }
}

proof fn lemma_place_of_is_tight<T: Numbered>(s: Seq<T>, top: int, i: int)
    requires
        is_falling(s),
        is_run(s, top),
        0 <= i < s.len(),
    ensures
        place_of(s, top, i) == i,
        s[i].block_number() == top - i,
    decreases s.len() - i,
{
    lemma_place_of(s, top, i);
    if i + 1 < s.len() {
        lemma_place_of_is_tight(s, top, i + 1);
        let here = place_of(s, top, i);
        if here > i {
            assert(s[i + 1].block_number() >= s[here].block_number());
        }
    }
}

/// Values with consecutive numbers, in falling order, count down from the highest number.
pub proof fn law_falling_counts_down<T: Numbered>(s: Seq<T>, top: int, i: int)
    requires
        is_run(s, top),
        0 <= i < s.len(),
    ensures
        falling(s)[i].block_number() == top - i,
{
    law_falling_permutes(s);
    law_falling_is_falling(s);
    let sorted = falling(s);
    assert forall|j: int| 0 <= j < sorted.len() implies has_number(
        sorted,
        #[trigger] (top - j),
    ) by {
        assert(has_number(s, top - j));
        let k = choose|k: int| 0 <= k < s.len() && (#[trigger] s[k]).block_number() == top - j;
        assert(s.contains(s[k]));
        assert(sorted.contains(s[k]));
    }
    lemma_place_of_is_tight(sorted, top, i);
}

/// Sorts values into rising order, which is falling order read backwards.
///
/// Values that come in falling order, as a peer sends them, are sorted in linear time.
pub fn sort_rising<T: Numbered>(items: Vec<T>) -> (rising: Vec<T>)
    ensures
        rising@ == falling(items@).reverse(),
{
    let ghost input = items@;
    let mut rest = items;
    let mut rising: Vec<T> = Vec::new();
    assert(rest@ =~= input.take(input.len() as int));
    assert(rising@ =~= falling(input.skip(input.len() as int)).reverse());
    while rest.len() > 0
        invariant
            rest@.len() <= input.len(),
            rest@ == input.take(rest@.len() as int),
            rising@ == falling(input.skip(rest@.len() as int)).reverse(),
        decreases rest@.len(),
    {
        let ghost before = rest@;
        let ghost sorted = falling(input.skip(before.len() as int));
        let item = rest.pop().unwrap();
        assert(rest@ =~= input.take(rest@.len() as int));
        let mut at: usize = rising.len();
        while at > 0 && rising[at - 1].get_block_number() > item.get_block_number()
            invariant
                at <= rising@.len(),
                forall|j: int|
                    at <= j < rising@.len() ==> (#[trigger] rising@[j]).block_number()
                        > item.block_number(),
            decreases at,
        {
            at -= 1;
        }
        proof {
            let suffix = input.skip(rest@.len() as int);
            assert(suffix[0] == item);
            assert(suffix.drop_first() =~= input.skip(before.len() as int));
            let place = sorted.len() - at;
            assert forall|i: int| 0 <= i < place implies (#[trigger] sorted[i]).block_number()
                > item.block_number() by {
                assert(sorted[i] == rising@[sorted.len() - 1 - i]);
            }
            if place < sorted.len() {
                assert(sorted[place] == rising@[at - 1]);
            }
            lemma_place_falling_at(item, sorted, place);
            assert(rising@.insert(at as int, item) =~= sorted.insert(place, item).reverse());
        }
        rising.insert(at, item);
    }
    assert(input.skip(0) =~= input);
    rising
}

/// Turns a list around.
pub fn reversed<T>(items: Vec<T>) -> (turned: Vec<T>)
    ensures
        turned@ == items@.reverse(),
{
    let ghost input = items@;
    let mut rest = items;
    let mut turned: Vec<T> = Vec::new();
    while rest.len() > 0
        invariant
            rest@.len() + turned@.len() == input.len(),
            rest@ == input.take(rest@.len() as int),
            turned@ == input.skip(rest@.len() as int).reverse(),
        decreases rest@.len(),
    {
        let item = rest.pop().unwrap();
        turned.push(item);
        assert(rest@ =~= input.take(rest@.len() as int));
        assert(turned@ =~= input.skip(rest@.len() as int).reverse());
    }
    assert(input.skip(0) =~= input);
    turned
}

} // verus!
