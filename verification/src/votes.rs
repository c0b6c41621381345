//! Votes of the ranks of a world, counted by an all-reduce sum: each rank contributes zero or
//! one and learns how many ones there were, as a double.
use crate::binary64::Real64;
use vstd::prelude::*;

verus! {

/// How many ranks voted one.
pub open spec fn tally(votes: Seq<bool>) -> nat
    decreases votes.len(),
{
    if votes.len() == 0 {
        0
    } else {
        tally(votes.drop_last()) + if votes.last() {
            1nat
        } else {
            0nat
        }
    }
}

/// What an all-reduce gives every rank: the sum of what the ranks contribute.
pub open spec fn total(contributions: Seq<nat>) -> nat
    decreases contributions.len(),
{
    if contributions.len() == 0 {
        0
    } else {
        total(contributions.drop_last()) + contributions.last()
    }
}

/// Where only the first rank contributes, the sum is what it contributes.
pub proof fn lemma_total_of_first(contributions: Seq<nat>)
    requires
        contributions.len() > 0,
        forall|rank: int| 1 <= rank < contributions.len() ==> #[trigger] contributions[rank] == 0,
    ensures
        total(contributions) == contributions[0],
    decreases contributions.len(),
{
    let rest = contributions.drop_last();
    if rest.len() > 0 {
        lemma_total_of_first(rest);
    } else {
        assert(total(rest) == 0);
    }
}

/// Where a rank contributes one for a vote and zero for none, the sum is the tally.
pub proof fn lemma_total_of_votes(votes: Seq<bool>, contributions: Seq<nat>)
    requires
        contributions.len() == votes.len(),
        forall|rank: int|
            0 <= rank < votes.len() ==> #[trigger] contributions[rank] == if votes[rank] {
                1nat
            } else {
                0nat
            },
    ensures
        total(contributions) == tally(votes),
    decreases votes.len(),
{
    if votes.len() > 0 {
        let shorter = votes.drop_last();
        let fewer = contributions.drop_last();
        assert forall|rank: int| 0 <= rank < shorter.len() implies #[trigger] fewer[rank]
            == if shorter[rank] {
            1nat
        } else {
            0nat
        } by {
            assert(fewer[rank] == contributions[rank]);
        }
        lemma_total_of_votes(shorter, fewer);
    }
}

/// A tally is zero when no rank voted one, and the size of the world when every rank did.
pub proof fn lemma_tally(votes: Seq<bool>)
    ensures
        tally(votes) <= votes.len(),
        tally(votes) == 0 <==> (forall|rank: int| 0 <= rank < votes.len() ==> !#[trigger] votes[rank]),
        tally(votes) == votes.len() <==> (forall|rank: int|
            0 <= rank < votes.len() ==> #[trigger] votes[rank]),
    decreases votes.len(),
{
    if votes.len() > 0 {
        let rest = votes.drop_last();
        lemma_tally(rest);
        assert forall|rank: int| 0 <= rank < rest.len() implies rest[rank] == votes[rank] by {}
        if tally(votes) == 0 {
            assert forall|rank: int| 0 <= rank < votes.len() implies !#[trigger] votes[rank] by {
                if rank < rest.len() {
                    assert(!rest[rank]);
                }
            }
        } else if votes.last() {
            assert(votes[votes.len() - 1]);
        } else {
            let rank = choose|rank: int| 0 <= rank < rest.len() && rest[rank];
            assert(votes[rank]);
        }
        if tally(votes) == votes.len() {
            assert forall|rank: int| 0 <= rank < votes.len() implies #[trigger] votes[rank] by {
                if rank < rest.len() {
                    assert(rest[rank]);
                }
            }
        } else if !votes.last() {
            assert(!votes[votes.len() - 1]);
        } else {
            let rank = choose|rank: int| 0 <= rank < rest.len() && !rest[rank];
            assert(!votes[rank]);
        }
    }
}

/// Whether a count of votes is that of a unanimous world: no rank, or every rank.
pub open spec fn count_is_unanimous(count: Real64, world: nat) -> bool {
    count.zero() || count.equals_whole(world)
}

/// Whether a count of votes is that of a unanimous world: no rank, or every rank.
pub fn is_unanimous(count: Real64, world: usize) -> (unanimous: bool)
    ensures
        unanimous == count_is_unanimous(count, world as nat),
{
    count.is_zero() || count.is_whole(world as u128)
}

/// Every rank accepts a count exactly when all ranks voted alike, for worlds whose size is a
/// double of its own.
pub proof fn law_unanimity(votes: Seq<bool>, count: Real64)
    requires
        votes.len() > 0,
        votes.len() < crate::binary64::SIGNIFICAND_END,
        count.equals_whole(tally(votes)),
    ensures
        count_is_unanimous(count, votes.len()) <==> (forall|left: int, right: int|
            0 <= left < votes.len() && 0 <= right < votes.len() ==> #[trigger] votes[left]
                == #[trigger] votes[right]),
{
    let world = votes.len();
    lemma_tally(votes);
    crate::binary64::lemma_small_whole(tally(votes));
    crate::binary64::lemma_small_whole(world);
    crate::binary64::lemma_equals_one_whole(count, tally(votes), world);
    if !count_is_unanimous(count, world) {
        let one = choose|rank: int| 0 <= rank < world && votes[rank];
        let other = choose|rank: int| 0 <= rank < world && !votes[rank];
        assert(votes[one] != votes[other]);
    }
    if tally(votes) != 0 && tally(votes) != world {
        assert(!count_is_unanimous(count, world));
    }
    if forall|left: int, right: int|
        0 <= left < world && 0 <= right < world ==> #[trigger] votes[left] == #[trigger] votes[right] {
        assert forall|rank: int| 0 <= rank < world implies #[trigger] votes[rank] == votes[0] by {}
    }
}

/// A tally counts the ranks that voted one.
pub proof fn law_tally_counts(votes: Seq<bool>)
    ensures
        tally(votes) == votes.filter(|vote: bool| vote).len(),
    decreases votes.len(),
{
    reveal(Seq::filter);
    if votes.len() > 0 {
        law_tally_counts(votes.drop_last());
    }
}

} // verus!
