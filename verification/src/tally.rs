//! The tally phase: from the reveals of all nodes to one result.

use crate::codec::{be_bytes, decoded, encode_result, PRICE_WIDTH};
use crate::consensus::{lemma_median_ignores_order, median, median_of};
use crate::reveals::{
    candidates, decode_reveals, lemma_candidates_ignore_order, lemma_candidates_of_malformed,
    lemma_candidates_remove, Reveal,
};
use vstd::seq_lib::to_multiset_len;
use vstd::prelude::*;
use vstd::string::StringExecFns;

verus! {

/// The text for a tally without a result.
pub const NO_CONSENSUS_MESSAGE: &'static str = "No consensus among revealed results";

/// Why a tally has no result.
#[derive(Clone, Copy, Debug, PartialEq, Eq, Structural)]
pub enum TallyError {
    /// No reveal held a price.
    NoConsensus,
}

impl TallyError {
    /// The text that the host is given for this error.
    pub fn message(&self) -> (text: String)
        ensures
            text@ == NO_CONSENSUS_MESSAGE@,
    {
        String::from_str(NO_CONSENSUS_MESSAGE)
    }
}

/// The result of a tally over `reveals`: the median of the candidate prices,
/// 16 bytes with the most significant first, or no result where no reveal
/// holds a price.
pub open spec fn tally_of(reveals: Seq<Reveal>) -> Result<Seq<u8>, TallyError> {
    let prices = candidates(reveals);
    if prices.len() == 0 {
        Err(TallyError::NoConsensus)
    } else {
        Ok(be_bytes(median_of(prices) as nat, PRICE_WIDTH as nat))
    }
}

/// Every node that tallies the same reveals reports the same, in whatever
/// order the reveals reached it.
pub proof fn lemma_tally_ignores_order(first: Seq<Reveal>, second: Seq<Reveal>)
    requires
        first.to_multiset() == second.to_multiset(),
    ensures
        tally_of(first) == tally_of(second),
{
    lemma_candidates_ignore_order(first, second);
    to_multiset_len(candidates(first));
    to_multiset_len(candidates(second));
    lemma_median_ignores_order(candidates(first), candidates(second));
}

/// A malformed reveal changes nothing: the tally is that of the other
/// reveals.
pub proof fn lemma_tally_ignores_malformed(reveals: Seq<Reveal>, at: int)
    requires
        0 <= at < reveals.len(),
        reveals[at].body@.len() != PRICE_WIDTH,
    ensures
        tally_of(reveals) == tally_of(reveals.remove(at)),
{
    lemma_candidates_remove(reveals, at);
}

/// Where no reveal is well formed, and so also where there is no reveal at
/// all, the tally has no result.
pub proof fn lemma_tally_without_prices(reveals: Seq<Reveal>)
    requires
        forall|i: int| 0 <= i < reveals.len() ==> (#[trigger] reveals[i]).body@.len() != PRICE_WIDTH,
    ensures
        tally_of(reveals) == Err::<Seq<u8>, TallyError>(TallyError::NoConsensus),
{
    assert forall|i: int| 0 <= i < reveals.len() implies decoded(
        #[trigger] reveals[i].body@,
    ) is None by {
        assert(reveals[i].body@.len() != PRICE_WIDTH);
    }
    lemma_candidates_of_malformed(reveals);
}

/// One well-formed reveal is enough for the tally to have a result.
pub proof fn lemma_tally_with_a_price(reveals: Seq<Reveal>, at: int)
    requires
        0 <= at < reveals.len(),
        reveals[at].body@.len() == PRICE_WIDTH,
    ensures
        tally_of(reveals) is Ok,
{
    lemma_candidates_remove(reveals, at);
    to_multiset_len(candidates(reveals));
}

/// Aggregates the reveals into the result of the data request.
pub fn tally_phase(reveals: &Vec<Reveal>) -> (result: Result<Vec<u8>, TallyError>)
    ensures
        match result {
            Ok(bytes) => tally_of(reveals@) == Ok::<Seq<u8>, TallyError>(bytes@),
            Err(error) => tally_of(reveals@) == Err::<Seq<u8>, TallyError>(error),
        },
{
    let prices = decode_reveals(reveals);
    if prices.is_empty() {
        return Err(TallyError::NoConsensus);
    }
    let final_price = median(prices);
    Ok(encode_result(final_price))
}

} // verus!
