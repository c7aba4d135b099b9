//! SlashScheduler: given a verdict, select the validators to punish. This
//! component only produces the offender list; submitting the punishment is
//! the external punishment module's business.

use vstd::prelude::*;

use crate::ledger::{distinct_validators, voters_with, DisputeRecord};
use crate::types::{SlashingRequest, Verdict};

verus! {

/// The voters on the winning side of a dispute concluded with `verdict`.
pub open spec fn winning_voters(votes: Seq<crate::ledger::VoteEntry>, verdict: Verdict) -> Seq<
    u32,
> {
    voters_with(votes, verdict is Valid)
}

/// The validator indices to punish when a dispute concludes with `verdict`:
/// the voters on the losing side, and — when the candidate was proven
/// invalid — also the validators that originally validated it at inclusion
/// time.
pub open spec fn offender_set(
    votes: Seq<crate::ledger::VoteEntry>,
    original: Seq<u32>,
    verdict: Verdict,
) -> Seq<u32> {
    match verdict {
        Verdict::Invalid => voters_with(votes, true) + original,
        Verdict::Valid => voters_with(votes, false),
    }
}

/// Build the slashing request for a dispute concluded with `verdict`.
///
/// With verdict `Invalid` the offenders are the validators that attested the
/// invalid candidate as correct, plus `original_validators` — the set that
/// validated the candidate at inclusion time, obtained by the caller from the
/// external session-history lookup. With verdict `Valid` the offenders are
/// the false accusers: the validators that voted against.
pub fn select_offenders(
    verdict: Verdict,
    record: &DisputeRecord,
    original_validators: &Vec<u32>,
) -> (r: SlashingRequest)
    ensures
        r.offenders@ == offender_set(record.votes@, original_validators@, verdict),
        r.candidate == record.candidate,
        r.session == record.session,
        r.verdict == verdict,
    {
    let mut offenders: Vec<u32> = match verdict {
        Verdict::Invalid => record.validators_pro(),
        Verdict::Valid => record.validators_cons(),
    };
    if let Verdict::Invalid = verdict {
        let ghost base = offenders@;
        let mut i: usize = 0;
        while i < original_validators.len()
            invariant
                i <= original_validators@.len(),
                offenders@ == base + original_validators@.take(i as int),
            decreases original_validators@.len() - i,
        {
            proof {
                assert(base + original_validators@.take(i as int + 1) =~= (base
                    + original_validators@.take(i as int)).push(original_validators@[i as int]));
            }
            offenders.push(original_validators[i]);
            i += 1;
        }
        proof {
            assert(original_validators@.take(original_validators@.len() as int)
                =~= original_validators@);
        }
    }
    SlashingRequest {
        offenders,
        candidate: record.candidate,
        session: record.session,
        verdict,
    }
}

/// The punished set and the winning side never overlap.
///
/// Within the vote list itself this is unconditional: a validator casts at
/// most one vote, so the losing voters are disjoint from the winning ones.
/// When the verdict is `Invalid` the offender set additionally carries the
/// inclusion-time validator set, which the external session-history lookup
/// supplies; the guarantee extends to them exactly when none of them voted
/// on the winning side, which is what the hypothesis states.
pub proof fn lemma_offenders_disjoint_from_winners(
    votes: Seq<crate::ledger::VoteEntry>,
    original: Seq<u32>,
    verdict: Verdict,
)
    requires
        distinct_validators(votes),
        verdict is Invalid ==> forall|v: u32|
            original.contains(v) ==> !winning_voters(votes, verdict).contains(v),
    ensures
        forall|v: u32|
            #[trigger] offender_set(votes, original, verdict).contains(v) ==> !winning_voters(
                votes,
                verdict,
            ).contains(v),
{
    crate::ledger::lemma_opposing_voters_disjoint(votes);
    assert forall|v: u32|
        #[trigger] offender_set(votes, original, verdict).contains(v) implies !winning_voters(
        votes,
        verdict,
    ).contains(v) by {
        match verdict {
            Verdict::Invalid => {
                let s = offender_set(votes, original, verdict);
                let pro = voters_with(votes, true);
                let k = choose|k: int| 0 <= k < s.len() && s[k] == v;
                if k < pro.len() {
                    assert(pro[k] == v);
                    assert(pro.contains(v));
                } else {
                    assert(original[k - pro.len()] == v);
                    assert(original.contains(v));
                }
            },
            Verdict::Valid => {
            },
        }
    }
}

/// A fresh copy of a validator-index list.
pub(crate) fn copy_validator_indices(v: &Vec<u32>) -> (r: Vec<u32>)
    ensures
        r@ == v@,
    {
    let mut r: Vec<u32> = Vec::new();
    let mut i: usize = 0;
    while i < v.len()
        invariant
            i <= v@.len(),
            r@ == v@.take(i as int),
        decreases v@.len() - i,
    {
        proof {
            assert(v@.take(i as int + 1) =~= v@.take(i as int).push(v@[i as int]));
        }
        r.push(v[i]);
        i += 1;
    }
    proof {
        assert(v@.take(v@.len() as int) =~= v@);
    }
    r
}

} // verus!
