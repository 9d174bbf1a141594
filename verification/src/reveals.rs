//! The reveals that the tally receives, and the prices they hold.

use crate::codec::{decode_price, decoded};
use vstd::prelude::*;
use vstd::seq_lib::{
    lemma_multiset_commutative, to_multiset_build, to_multiset_contains, to_multiset_len,
    to_multiset_remove,
};

verus! {

/// What one node disclosed: the payload of its execution, as it arrived.
#[derive(Debug, Clone, PartialEq, Eq)]
pub struct Reveal {
    pub body: Vec<u8>,
}

/// The price that a reveal holds, if its body is well formed.
pub open spec fn price_of() -> spec_fn(Reveal) -> Option<u128> {
    |reveal: Reveal| decoded(reveal.body@)
}

/// The prices of the well-formed reveals, in the order of the reveals. A
/// malformed reveal contributes nothing and hides no other reveal.
pub open spec fn candidates(reveals: Seq<Reveal>) -> Seq<u128> {
    reveals.filter_map(price_of())
}

/// One more reveal adds its price, if it has one, behind the others.
pub proof fn lemma_candidates_push(reveals: Seq<Reveal>, reveal: Reveal)
    ensures
        candidates(reveals.push(reveal)) == match decoded(reveal.body@) {
            Some(price) => candidates(reveals).push(price),
            None => candidates(reveals),
        },
{
    let all = reveals.push(reveal);
    assert(all.drop_last() == reveals);
    assert(all.last() == reveal);
}

/// Reveals of which none holds a price yield no candidate.
pub proof fn lemma_candidates_of_malformed(reveals: Seq<Reveal>)
    requires
        forall|i: int| 0 <= i < reveals.len() ==> decoded(#[trigger] reveals[i].body@) is None,
    ensures
        candidates(reveals).len() == 0,
    decreases reveals.len(),
{
    if reveals.len() > 0 {
        lemma_candidates_of_malformed(reveals.drop_last());
    }
}

/// The candidates of reveals that arrive one batch behind the other are the
/// candidates of the first batch, then those of the second.
pub proof fn lemma_candidates_add(first: Seq<Reveal>, second: Seq<Reveal>)
    ensures
        candidates(first + second) == candidates(first) + candidates(second),
    decreases second.len(),
{
    if second.len() == 0 {
        assert(first + second == first);
    } else {
        lemma_candidates_add(first, second.drop_last());
        assert((first + second).drop_last() == first + second.drop_last());
    }
}

/// The candidates without one of the reveals, and the price of that reveal.
pub proof fn lemma_candidates_remove(reveals: Seq<Reveal>, at: int)
    requires
        0 <= at < reveals.len(),
    ensures
        candidates(reveals).to_multiset() == match decoded(reveals[at].body@) {
            Some(price) => candidates(reveals.remove(at)).to_multiset().insert(price),
            None => candidates(reveals.remove(at)).to_multiset(),
        },
        decoded(reveals[at].body@) is None ==> candidates(reveals) == candidates(
            reveals.remove(at),
        ),
{
    let before = reveals.take(at);
    let after = reveals.skip(at + 1);
    let one = seq![reveals[at]];
    assert(reveals == before + one + after);
    assert(reveals.remove(at) == before + after);
    lemma_candidates_add(before + one, after);
    lemma_candidates_add(before, one);
    lemma_candidates_add(before, after);
    lemma_candidates_push(Seq::empty(), reveals[at]);
    assert(Seq::<Reveal>::empty().push(reveals[at]) == one);
    assert(candidates(Seq::<Reveal>::empty()) == Seq::<u128>::empty());
    match decoded(reveals[at].body@) {
        Some(price) => {
            let kept = candidates(before);
            let rest = candidates(after);
            assert(candidates(one) == seq![price]);
            lemma_multiset_commutative(kept + seq![price], rest);
            lemma_multiset_commutative(kept, rest);
            assert(kept + seq![price] == kept.push(price));
            to_multiset_build(kept, price);
            assert(candidates(reveals).to_multiset() == (kept + rest).to_multiset().insert(price));
        },
        None => {
            assert(candidates(before) + Seq::<u128>::empty() == candidates(before));
        },
    }
}

/// Which prices are candidates, and how often, does not depend on the order
/// in which the reveals arrive.
pub proof fn lemma_candidates_ignore_order(first: Seq<Reveal>, second: Seq<Reveal>)
    requires
        first.to_multiset() == second.to_multiset(),
    ensures
        candidates(first).to_multiset() == candidates(second).to_multiset(),
    decreases first.len(),
{
    to_multiset_len(first);
    to_multiset_len(second);
    if first.len() == 0 {
        assert(first == second);
    } else {
        let last = first.last();
        to_multiset_contains(first, last);
        to_multiset_contains(second, last);
        assert(first.contains(last)) by {
            assert(first[first.len() - 1] == last);
        }
        let at = choose|at: int| 0 <= at < second.len() && second[at] == last;
        assert(first.drop_last() == first.remove(first.len() - 1));
        to_multiset_remove(first, first.len() - 1);
        to_multiset_remove(second, at);
        lemma_candidates_ignore_order(first.drop_last(), second.remove(at));
        lemma_candidates_remove(first, first.len() - 1);
        lemma_candidates_remove(second, at);
    }
}

/// Decodes every reveal and keeps the prices of those that are well formed.
pub fn decode_reveals(reveals: &Vec<Reveal>) -> (prices: Vec<u128>)
    ensures
        prices@ == candidates(reveals@),
{
    let mut prices: Vec<u128> = Vec::new();
    let mut i: usize = 0;
    assert(reveals@.take(0) == Seq::<Reveal>::empty());
    while i < reveals.len()
        invariant
            i <= reveals.len(),
            prices@ == candidates(reveals@.take(i as int)),
        decreases reveals.len() - i,
    {
        proof {
            assert(reveals@.take(i + 1) == reveals@.take(i as int).push(reveals[i as int]));
            lemma_candidates_push(reveals@.take(i as int), reveals[i as int]);
        }
        match decode_price(reveals[i].body.as_slice()) {
            Some(price) => prices.push(price),
            None => {},
        }
        i += 1;
    }
    assert(reveals@.take(reveals.len() as int) == reveals@);
    prices
}

} // verus!
