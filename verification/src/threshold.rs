//! ThresholdResolver: decides whether a tally binds a verdict.
//!
//! The supermajority bound is the smallest integer strictly greater than two
//! thirds of the validator-set size. A draft formula that added the full
//! remainder of `2 * n` modulo 3, instead of the single ceiling bump, demands
//! strictly more than two thirds for most set sizes; this crate deliberately
//! uses the exact two-thirds bound, which is also what the concrete tallies in
//! the test suite pin down (10 validators resolve at 7 votes).

use vstd::prelude::*;
use vstd::arithmetic::div_mod::{lemma_div_is_ordered, lemma_fundamental_div_mod};
use crate::ledger::{count_votes, distinct_validators, lemma_count_votes_total, VoteEntry};
use crate::types::{DisputeError, TallyOutcome, Verdict};

verus! {

/// The minimum vote count that binds a verdict over `n_validators`: the
/// smallest integer strictly greater than `2 * n_validators / 3`.
pub open spec fn spec_threshold(n_validators: int) -> int {
    2 * n_validators / 3 + 1
}

/// Calculate the majority required to sway the dispute one way or the other.
pub fn resolution_threshold(n_validators: usize) -> (t: usize)
    requires
        n_validators <= u32::MAX as usize,
    ensures
        t == spec_threshold(n_validators as int),
    {
    proof {
        lemma_div_is_ordered(2 * (n_validators as int), 2 * (u32::MAX as int), 3);
    }
    let doubled: u64 = 2 * (n_validators as u64);
    (doubled / 3 + 1) as usize
}

/// Decide whether the tally `(pro, cons)` binds a verdict over a set of
/// `n_validators` validators.
///
/// Exactly one of four things happens:
/// - neither count reaches the threshold: `Ok(Undecided)` — not an error,
///   the dispute simply stays open;
/// - only `pro` reaches it: `Ok(Decided(Valid))`;
/// - only `cons` reaches it: `Ok(Decided(Invalid))`;
/// - both reach it: `Err(AmbiguousResolution)` — impossible while each
///   validator casts at most one vote ([`lemma_verdict_exclusive`]), so it
///   signals broken vote admission or validator-count bookkeeping, and the
///   caller must abort rather than guess a winner.
pub fn determine_verdict(pro: usize, cons: usize, n_validators: usize) -> (r: Result<
    TallyOutcome,
    DisputeError,
>)
    requires
        n_validators <= u32::MAX as usize,
    ensures
        ({
            let t = spec_threshold(n_validators as int);
            &&& (r == Ok::<TallyOutcome, DisputeError>(TallyOutcome::Undecided) <==> pro < t && cons < t)
            &&& (r == Ok::<TallyOutcome, DisputeError>(TallyOutcome::Decided(Verdict::Valid)) <==> pro >= t && cons < t)
            &&& (r == Ok::<TallyOutcome, DisputeError>(TallyOutcome::Decided(Verdict::Invalid)) <==> cons >= t && pro < t)
            &&& (r == Err::<TallyOutcome, DisputeError>(DisputeError::AmbiguousResolution) <==> pro >= t && cons >= t)
        }),
    {
    let t = resolution_threshold(n_validators);
    let pro_reached = pro >= t;
    let cons_reached = cons >= t;
    if pro_reached && cons_reached {
        Err(DisputeError::AmbiguousResolution)
    } else if pro_reached {
        Ok(TallyOutcome::Decided(Verdict::Valid))
    } else if cons_reached {
        Ok(TallyOutcome::Decided(Verdict::Invalid))
    } else {
        Ok(TallyOutcome::Undecided)
    }
}

/// The threshold is the least count with a two-thirds supermajority: it is
/// the smallest integer `t` with `3 * t > 2 * n`, and any such `t` is also a
/// strict majority (`2 * t > n`), so two opposing supermajorities cannot
/// coexist.
pub proof fn lemma_threshold_supermajority(n: int)
    requires
        n >= 1,
    ensures
        3 * spec_threshold(n) > 2 * n,
        3 * (spec_threshold(n) - 1) <= 2 * n,
        2 * spec_threshold(n) > n,
{
    lemma_fundamental_div_mod(2 * n, 3);
}

/// The threshold never shrinks when the validator set grows.
pub proof fn lemma_threshold_monotonic(smaller: int, larger: int)
    requires
        1 <= smaller <= larger,
    ensures
        spec_threshold(smaller) <= spec_threshold(larger),
{
    lemma_div_is_ordered(2 * smaller, 2 * larger, 3);
}

/// For any split of `n` validators into pro, against and abstaining voters
/// (so `pro + cons <= n`), at most one side can reach the threshold: a
/// binding verdict is unique.
pub proof fn lemma_verdict_exclusive(pro: int, cons: int, n: int)
    requires
        n >= 1,
        pro >= 0,
        cons >= 0,
        pro + cons <= n,
    ensures
        !(pro >= spec_threshold(n) && cons >= spec_threshold(n)),
{
    lemma_threshold_supermajority(n);
}

/// A dispute that admitted each vote from a distinct validator of an
/// `n`-member set cannot hold more than `n` votes.
pub proof fn lemma_votes_bounded_by_validator_set(votes: Seq<VoteEntry>, n: int)
    requires
        distinct_validators(votes),
        n >= 0,
        forall|i: int| 0 <= i < votes.len() ==> (#[trigger] votes[i].validator) < n,
    ensures
        votes.len() <= n,
{
    let ids = votes.map_values(|e: VoteEntry| e.validator as int);
    assert forall|i: int, j: int|
        0 <= i < ids.len() && 0 <= j < ids.len() && i != j implies ids[i] != ids[j] by {
        if i < j {
            assert(votes[i].validator != votes[j].validator);
        } else {
            assert(votes[j].validator != votes[i].validator);
        }
    }
    ids.unique_seq_to_set();
    vstd::set_lib::lemma_int_range(0, n);
    assert forall|x: int| ids.to_set().contains(x) implies vstd::set_lib::set_int_range(
        0,
        n,
    ).contains(x) by {
        let i = choose|i: int| 0 <= i < ids.len() && ids[i] == x;
        assert(votes[i].validator < n);
    }
    vstd::set_lib::lemma_len_subset(ids.to_set(), vstd::set_lib::set_int_range(0, n));
}

/// Two opposing supermajorities are mathematically impossible: while each
/// validator of the `n`-member set casts at most one vote, no tally the
/// ledger can build reaches the threshold on both sides, so a sound caller
/// never sees `AmbiguousResolution`.
pub proof fn lemma_no_ambiguous_tally(votes: Seq<VoteEntry>, n: int)
    requires
        distinct_validators(votes),
        n >= 1,
        forall|i: int| 0 <= i < votes.len() ==> (#[trigger] votes[i].validator) < n,
    ensures
        !(count_votes(votes, true) >= spec_threshold(n) && count_votes(
            votes,
            false,
        ) >= spec_threshold(n)),
{
    lemma_votes_bounded_by_validator_set(votes, n);
    lemma_count_votes_total(votes);
    lemma_verdict_exclusive(
        count_votes(votes, true),
        count_votes(votes, false),
        n,
    );
}

} // verus!
